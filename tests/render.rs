use s3_server::dto::{
    Bucket, CommonPrefix, CreateBucketError, CreateBucketOutput, DeleteBucketOutput, GetBucketLocationOutput,
    GetObjectError, GetObjectOutput, HeadObjectOutput, ListBucketsOutput, ListObjectsError, ListObjectsOutput, Object,
    Owner,
};
use s3_server::error::{HeaderName, NoError, OutputFault, S3Error, S3ErrorCode};
use s3_server::output::{S3Output, XmlErrorResponse};
use s3_server::response::{ResponseBody, S3Response};

const DECL: &str = "<?xml version=\"1.0\" encoding=\"UTF-8\"?>";

fn body_text(r: &S3Response) -> String {
    match &r.body {
        ResponseBody::Xml(b) => String::from_utf8(b.clone()).unwrap(),
        _ => panic!("not an XML body"),
    }
}

fn header(r: &S3Response, name: HeaderName) -> Option<String> {
    r.headers.iter().find(|h| h.name == name).map(|h| h.value.clone())
}

fn s(v: &str) -> Option<String> {
    Some(v.to_string())
}

#[test]
fn list_buckets_two_buckets_and_owner() {
    let out = ListBucketsOutput {
        buckets: Some(vec![
            Bucket { name: s("a"), creation_date: s("2020-01-01T00:00:00Z") },
            Bucket { name: s("b"), creation_date: None },
        ]),
        owner: Some(Owner { id: s("42"), display_name: None }),
    };
    let r = out.try_into_response().ok().unwrap();
    assert_eq!(r.status, 200);
    assert_eq!(header(&r, HeaderName::ContentType), s("text/xml"));
    let b = body_text(&r);
    assert_eq!(
        b,
        format!(
            "{}<ListBucketsOutput><Buckets><Bucket><CreationDate>2020-01-01T00:00:00Z</CreationDate><Name>a</Name></Bucket><Bucket><Name>b</Name></Bucket></Buckets><Owner><ID>42</ID></Owner></ListBucketsOutput>",
            DECL
        )
    );
    assert_eq!(b.matches("<Bucket>").count(), 2);
    assert!(!b.contains("DisplayName"));
}

#[test]
fn list_buckets_all_absent() {
    let out = ListBucketsOutput { buckets: None, owner: None };
    let b = body_text(&out.try_into_response().ok().unwrap());
    assert_eq!(b, format!("{}<ListBucketsOutput />", DECL));
}

#[test]
fn list_buckets_empty_list_keeps_wrapper() {
    let out = ListBucketsOutput { buckets: Some(vec![]), owner: None };
    let b = body_text(&out.try_into_response().ok().unwrap());
    assert!(b.contains("<Buckets />"));
    assert!(!b.contains("<Bucket>"));
}

#[test]
fn no_such_key_renders_404() {
    let r = GetObjectError::NoSuchKey(None).try_into_response().ok().unwrap();
    assert_eq!(r.status, 404);
    assert_eq!(body_text(&r), format!("{}<Error><Code>NoSuchKey</Code></Error>", DECL));
}

#[test]
fn error_with_message() {
    let r = CreateBucketError::BucketAlreadyExists(s("taken")).try_into_response().ok().unwrap();
    assert_eq!(r.status, 409);
    assert_eq!(
        body_text(&r),
        format!("{}<Error><Code>BucketAlreadyExists</Code><Message>taken</Message></Error>", DECL)
    );
    let r = ListObjectsError::NoSuchBucket(None).try_into_response().ok().unwrap();
    assert_eq!(r.status, 404);
    assert!(body_text(&r).contains("<Code>NoSuchBucket</Code>"));
}

#[test]
fn undocumented_code_defaults_to_500() {
    let e = XmlErrorResponse::from_code_msg(S3ErrorCode::InvalidAddressingHeader, None);
    let r = e.try_into_response().ok().unwrap();
    assert_eq!(r.status, 500);
    assert!(body_text(&r).contains("<Code>InvalidAddressingHeader</Code>"));
}

#[test]
fn error_document_all_fields_in_order() {
    let e = XmlErrorResponse {
        code: S3ErrorCode::NoSuchBucket,
        message: s("m"),
        resource: s("/b"),
        request_id: s("id-1"),
    };
    let r = e.try_into_response().ok().unwrap();
    assert_eq!(
        body_text(&r),
        format!(
            "{}<Error><Code>NoSuchBucket</Code><Message>m</Message><Resource>/b</Resource><RequestId>id-1</RequestId></Error>",
            DECL
        )
    );
}

#[test]
fn location_absent_is_empty_element() {
    let r = GetBucketLocationOutput { location_constraint: None }.try_into_response().ok().unwrap();
    assert_eq!(r.status, 200);
    assert_eq!(body_text(&r), format!("{}<LocationConstraint></LocationConstraint>", DECL));
}

#[test]
fn location_present() {
    let r = GetBucketLocationOutput { location_constraint: s("eu-west-1") }.try_into_response().ok().unwrap();
    assert_eq!(body_text(&r), format!("{}<LocationConstraint>eu-west-1</LocationConstraint>", DECL));
}

#[test]
fn text_is_escaped() {
    let r = GetBucketLocationOutput { location_constraint: s("a<b&c") }.try_into_response().ok().unwrap();
    assert_eq!(body_text(&r), format!("{}<LocationConstraint>a&lt;b&amp;c</LocationConstraint>", DECL));
}

#[test]
fn list_objects_full() {
    let out = ListObjectsOutput {
        is_truncated: Some(false),
        marker: s(""),
        next_marker: None,
        contents: Some(vec![Object {
            key: s("k"),
            last_modified: s("2020-01-01T00:00:00.000Z"),
            e_tag: s("\"e\""),
            size: Some(12),
            storage_class: s("STANDARD"),
            owner: Some(Owner { id: s("1"), display_name: s("me") }),
        }]),
        name: s("bkt"),
        prefix: None,
        delimiter: s("/"),
        max_keys: Some(1000),
        common_prefixes: Some(vec![CommonPrefix { prefix: s("x/") }, CommonPrefix { prefix: s("y/") }]),
        encoding_type: None,
    };
    let b = body_text(&out.try_into_response().ok().unwrap());
    assert_eq!(
        b,
        format!(
            "{}<ListBucketResult><IsTruncated>false</IsTruncated><Marker></Marker><Contents><Key>k</Key><LastModified>2020-01-01T00:00:00.000Z</LastModified><ETag>\"e\"</ETag><Size>12</Size><StorageClass>STANDARD</StorageClass><Owner><ID>1</ID><DisplayName>me</DisplayName></Owner></Contents><Name>bkt</Name><Delimiter>/</Delimiter><MaxKeys>1000</MaxKeys><CommonPrefixes><Prefix>x/</Prefix><Prefix>y/</Prefix></CommonPrefixes></ListBucketResult>",
            DECL
        )
    );
}

#[test]
fn list_objects_all_absent() {
    let out = ListObjectsOutput {
        is_truncated: None,
        marker: None,
        next_marker: None,
        contents: None,
        name: None,
        prefix: None,
        delimiter: None,
        max_keys: None,
        common_prefixes: None,
        encoding_type: None,
    };
    let b = body_text(&out.try_into_response().ok().unwrap());
    assert_eq!(b, format!("{}<ListBucketResult />", DECL));
}

#[test]
fn create_bucket_location_header() {
    let r = CreateBucketOutput { location: s("/bkt") }.try_into_response().ok().unwrap();
    assert_eq!(r.status, 200);
    assert_eq!(header(&r, HeaderName::Location), s("/bkt"));
    assert!(matches!(r.body, ResponseBody::Empty));
    let r = CreateBucketOutput { location: None }.try_into_response().ok().unwrap();
    assert!(r.headers.is_empty());
}

#[test]
fn invalid_header_value_is_invalid_output() {
    let r = CreateBucketOutput { location: s("a\nb") }.try_into_response();
    assert!(matches!(
        r,
        Err(S3Error::InvalidOutput(OutputFault::InvalidHeaderValue(HeaderName::Location)))
    ));
}

#[test]
fn delete_bucket_is_204() {
    let r = DeleteBucketOutput {}.try_into_response().ok().unwrap();
    assert_eq!(r.status, 204);
    assert!(r.headers.is_empty());
}

#[test]
fn head_object_headers() {
    let out = HeadObjectOutput {
        content_type: s("text/plain"),
        content_length: Some(123),
        last_modified: s("2020-01-01T00:00:00Z"),
        e_tag: s("\"abc\""),
        expires: None,
    };
    let r = out.try_into_response().ok().unwrap();
    assert_eq!(r.status, 200);
    assert_eq!(header(&r, HeaderName::ContentType), s("text/plain"));
    assert_eq!(header(&r, HeaderName::ContentLength), s("123"));
    assert_eq!(header(&r, HeaderName::LastModified), s("Wed, 01 Jan 2020 00:00:00 GMT"));
    assert_eq!(header(&r, HeaderName::ETag), s("\"abc\""));
    assert_eq!(header(&r, HeaderName::Expires), None);
    assert_eq!(r.headers.len(), 4);
}

#[test]
fn head_object_all_absent() {
    let out = HeadObjectOutput { content_type: None, content_length: None, last_modified: None, e_tag: None, expires: None };
    let r = out.try_into_response().ok().unwrap();
    assert!(r.headers.is_empty());
}

#[test]
fn get_object_stream_and_bad_timestamp() {
    let out = GetObjectOutput {
        body: Some(hyper::Body::from("data")),
        content_length: Some(4),
        content_type: None,
        last_modified: None,
    };
    let r = out.try_into_response().ok().unwrap();
    assert!(matches!(r.body, ResponseBody::Stream(_)));
    assert_eq!(header(&r, HeaderName::ContentLength), s("4"));
    let out = GetObjectOutput { body: None, content_length: None, content_type: None, last_modified: s("yesterday") };
    assert!(matches!(out.try_into_response(), Err(S3Error::InvalidOutput(OutputFault::InvalidTimestamp))));
}

#[test]
fn two_sided_result_dispatch() {
    let ok: Result<DeleteBucketOutput, S3Error<NoError>> = Ok(DeleteBucketOutput {});
    assert_eq!(ok.try_into_response().ok().unwrap().status, 204);
    let op: Result<GetBucketLocationOutput, S3Error<GetObjectError>> =
        Err(S3Error::Operation(GetObjectError::NoSuchKey(None)));
    assert_eq!(op.try_into_response().ok().unwrap().status, 404);
    let st: Result<GetBucketLocationOutput, S3Error<GetObjectError>> = Err(S3Error::Storage("disk".to_string()));
    assert!(matches!(st.try_into_response(), Err(S3Error::Storage(m)) if m == "disk"));
    let ns: Result<GetBucketLocationOutput, S3Error<GetObjectError>> = Err(S3Error::NotSupported);
    assert!(matches!(ns.try_into_response(), Err(S3Error::NotSupported)));
    let ir: Result<GetBucketLocationOutput, S3Error<GetObjectError>> = Err(S3Error::InvalidRequest("bad".to_string()));
    assert!(matches!(ir.try_into_response(), Err(S3Error::InvalidRequest(_))));
    let io: Result<GetBucketLocationOutput, S3Error<GetObjectError>> =
        Err(S3Error::InvalidOutput(OutputFault::XmlWrite));
    assert!(matches!(io.try_into_response(), Err(S3Error::InvalidOutput(OutputFault::XmlWrite))));
}

#[test]
fn declaration_identical_across_renders() {
    let bodies = vec![
        body_text(&GetBucketLocationOutput { location_constraint: None }.try_into_response().ok().unwrap()),
        body_text(&GetObjectError::NoSuchKey(None).try_into_response().ok().unwrap()),
        body_text(&ListBucketsOutput { buckets: None, owner: None }.try_into_response().ok().unwrap()),
    ];
    for b in bodies {
        assert!(b.starts_with(DECL));
        assert!(!b.contains("standalone"));
    }
}

#[test]
fn decimal_text_of_zero_negative_and_large() {
    let out = |k: i64| ListObjectsOutput {
        is_truncated: Some(true),
        marker: None,
        next_marker: None,
        contents: None,
        name: None,
        prefix: None,
        delimiter: None,
        max_keys: Some(k),
        common_prefixes: None,
        encoding_type: None,
    };
    let b = body_text(&out(0).try_into_response().ok().unwrap());
    assert!(b.contains("<IsTruncated>true</IsTruncated><MaxKeys>0</MaxKeys>"));
    let b = body_text(&out(-1).try_into_response().ok().unwrap());
    assert!(b.contains("<MaxKeys>-1</MaxKeys>"));
    let b = body_text(&out(i64::MIN).try_into_response().ok().unwrap());
    assert!(b.contains("<MaxKeys>-9223372036854775808</MaxKeys>"));
    let b = body_text(&out(1234567890).try_into_response().ok().unwrap());
    assert!(b.contains("<MaxKeys>1234567890</MaxKeys>"));
}
