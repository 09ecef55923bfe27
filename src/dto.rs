//! Results and business errors of the S3 operations
use vstd::prelude::*;
use crate::error::NoError;

verus! {

pub struct CreateBucketOutput {
    pub location: Option<String>,
}

pub enum CreateBucketError {
    BucketAlreadyExists(Option<String>),
    BucketAlreadyOwnedByYou(Option<String>),
}

pub struct DeleteBucketOutput {}

pub type DeleteBucketError = NoError;

pub struct DeleteObjectOutput {}

pub type DeleteObjectError = NoError;

pub struct GetObjectOutput {
    pub body: Option<hyper::Body>,
    pub content_length: Option<i64>,
    pub content_type: Option<String>,
    /// stored timestamp, RFC 3339
    pub last_modified: Option<String>,
}

pub enum GetObjectError {
    NoSuchKey(Option<String>),
}

pub struct GetBucketLocationOutput {
    pub location_constraint: Option<String>,
}

pub type GetBucketLocationError = NoError;

pub struct HeadBucketOutput {}

pub enum HeadBucketError {
    NoSuchBucket(Option<String>),
}

pub struct HeadObjectOutput {
    pub content_type: Option<String>,
    pub content_length: Option<i64>,
    /// stored timestamp, RFC 3339
    pub last_modified: Option<String>,
    pub e_tag: Option<String>,
    pub expires: Option<String>,
}

pub enum HeadObjectError {
    NoSuchKey(Option<String>),
}

pub struct Owner {
    pub display_name: Option<String>,
    pub id: Option<String>,
}

pub struct Bucket {
    pub creation_date: Option<String>,
    pub name: Option<String>,
}

pub struct ListBucketsOutput {
    pub buckets: Option<Vec<Bucket>>,
    pub owner: Option<Owner>,
}

pub type ListBucketsError = NoError;

pub struct Object {
    pub key: Option<String>,
    pub last_modified: Option<String>,
    pub e_tag: Option<String>,
    pub size: Option<i64>,
    pub storage_class: Option<String>,
    pub owner: Option<Owner>,
}

pub struct CommonPrefix {
    pub prefix: Option<String>,
}

pub struct ListObjectsOutput {
    pub is_truncated: Option<bool>,
    pub marker: Option<String>,
    pub next_marker: Option<String>,
    pub contents: Option<Vec<Object>>,
    pub name: Option<String>,
    pub prefix: Option<String>,
    pub delimiter: Option<String>,
    pub max_keys: Option<i64>,
    pub common_prefixes: Option<Vec<CommonPrefix>>,
    pub encoding_type: Option<String>,
}

pub enum ListObjectsError {
    NoSuchBucket(Option<String>),
}

pub struct PutObjectOutput {}

pub type PutObjectError = NoError;

} // verus!
