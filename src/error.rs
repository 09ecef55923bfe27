//! Error taxonomy: transport failures and business error codes
use vstd::prelude::*;
use crate::output::S3Output;
use crate::response::S3Response;

verus! {

/// Business error codes of S3, with their canonical names and statuses
#[derive(Clone, Copy, Debug, PartialEq, Eq, Structural)]
pub enum S3ErrorCode {
    BucketAlreadyExists,
    BucketAlreadyOwnedByYou,
    NoSuchBucket,
    NoSuchKey,
    InternalError,
    NotImplemented,
    /// documented without an HTTP status
    InvalidAddressingHeader,
}

pub open spec fn code_name(c: S3ErrorCode) -> Seq<char> {
    match c {
        S3ErrorCode::BucketAlreadyExists => "BucketAlreadyExists"@,
        S3ErrorCode::BucketAlreadyOwnedByYou => "BucketAlreadyOwnedByYou"@,
        S3ErrorCode::NoSuchBucket => "NoSuchBucket"@,
        S3ErrorCode::NoSuchKey => "NoSuchKey"@,
        S3ErrorCode::InternalError => "InternalError"@,
        S3ErrorCode::NotImplemented => "NotImplemented"@,
        S3ErrorCode::InvalidAddressingHeader => "InvalidAddressingHeader"@,
    }
}

pub open spec fn code_status(c: S3ErrorCode) -> Option<u16> {
    match c {
        S3ErrorCode::BucketAlreadyExists => Some(409),
        S3ErrorCode::BucketAlreadyOwnedByYou => Some(409),
        S3ErrorCode::NoSuchBucket => Some(404),
        S3ErrorCode::NoSuchKey => Some(404),
        S3ErrorCode::InternalError => Some(500),
        S3ErrorCode::NotImplemented => Some(501),
        S3ErrorCode::InvalidAddressingHeader => None,
    }
}

/// The status a code renders with: its own, or 500 where it has none
pub open spec fn status_or_default(c: S3ErrorCode) -> u16 {
    match code_status(c) {
        Some(s) => s,
        None => 500,
    }
}

impl S3ErrorCode {
    pub fn as_str(&self) -> (r: &'static str)
        ensures
            r@ == code_name(*self),
    {
        match self {
            S3ErrorCode::BucketAlreadyExists => "BucketAlreadyExists",
            S3ErrorCode::BucketAlreadyOwnedByYou => "BucketAlreadyOwnedByYou",
            S3ErrorCode::NoSuchBucket => "NoSuchBucket",
            S3ErrorCode::NoSuchKey => "NoSuchKey",
            S3ErrorCode::InternalError => "InternalError",
            S3ErrorCode::NotImplemented => "NotImplemented",
            S3ErrorCode::InvalidAddressingHeader => "InvalidAddressingHeader",
        }
    }

    pub fn to_string(&self) -> (r: String)
        ensures
            r@ == code_name(*self),
    {
        self.as_str().to_owned()
    }

    pub fn as_status_code(&self) -> (r: Option<u16>)
        ensures
            r == code_status(*self),
    {
        match self {
            S3ErrorCode::BucketAlreadyExists => Some(409),
            S3ErrorCode::BucketAlreadyOwnedByYou => Some(409),
            S3ErrorCode::NoSuchBucket => Some(404),
            S3ErrorCode::NoSuchKey => Some(404),
            S3ErrorCode::InternalError => Some(500),
            S3ErrorCode::NotImplemented => Some(501),
            S3ErrorCode::InvalidAddressingHeader => None,
        }
    }
}

/// Response header that a renderer may set
#[derive(Clone, Copy, Debug, PartialEq, Eq, Structural)]
pub enum HeaderName {
    Location,
    ContentType,
    ContentLength,
    ETag,
    Expires,
    LastModified,
}

impl HeaderName {
    pub fn as_str(&self) -> (r: &'static str) {
        match self {
            HeaderName::Location => "location",
            HeaderName::ContentType => "content-type",
            HeaderName::ContentLength => "content-length",
            HeaderName::ETag => "etag",
            HeaderName::Expires => "expires",
            HeaderName::LastModified => "last-modified",
        }
    }
}

/// Why a value could not be rendered
#[derive(Clone, Copy, Debug, PartialEq, Eq, Structural)]
pub enum OutputFault {
    /// the XML emitter failed
    XmlWrite,
    /// a header value holds characters that a header cannot carry
    InvalidHeaderValue(HeaderName),
    /// a stored timestamp is not in the expected format
    InvalidTimestamp,
}

/// The business error of an operation that cannot fail at that level: no
/// value of it can be built
#[derive(Debug)]
pub struct NoError {
    unreachable: (),
}

impl NoError {
    #[verifier::type_invariant]
    spec fn inhabited(self) -> bool {
        false
    }
}

/// Statically never invoked: no `NoError` exists
impl S3Output for NoError {
    open spec fn renders_to(self, r: S3Result<S3Response, NoError>) -> bool {
        true
    }

    fn try_into_response(self) -> (r: S3Result<S3Response, NoError>) {
        proof {
            use_type_invariant(&self);
        }
        Err(S3Error::NotSupported)
    }
}

/// Failure of an operation: transport-level, or a business error `E`
#[derive(Debug)]
pub enum S3Error<E> {
    /// the request was rejected before reaching a handler
    InvalidRequest(String),
    /// the handler's value could not be serialised
    InvalidOutput(OutputFault),
    /// the backing store faulted
    Storage(String),
    /// recognised but not implemented
    NotSupported,
    /// a business error of the operation
    Operation(E),
}

pub type S3Result<T, E> = Result<T, S3Error<E>>;

} // verus!
