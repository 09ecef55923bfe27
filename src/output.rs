//! Types which can be converted into a response
use vstd::prelude::*;
use vstd::string::*;
use crate::error::{code_name, status_or_default, HeaderName, NoError, OutputFault, S3Error, S3ErrorCode, S3Result};
use crate::response::{header_ok, opt_header, wrap_xml_output, xml_rendered, ResponseBody, S3Response};
use crate::time::{map_opt_rfc3339_to_last_modified, opt_last_modified};
use crate::dto::{
    CreateBucketError, CreateBucketOutput, DeleteBucketOutput, DeleteObjectOutput, GetBucketLocationOutput,
    GetObjectError, GetObjectOutput, HeadBucketError, HeadBucketOutput, HeadObjectError, HeadObjectOutput,
    PutObjectOutput, Bucket, CommonPrefix, ListBucketsOutput, ListObjectsError, ListObjectsOutput, Object, Owner,
};
use crate::xml_tree::{
    balanced, lemma_balanced_add, lemma_balanced_concat, lemma_balanced_element, lemma_balanced_opt_element,
    lemma_balanced_opt_stack, lemma_balanced_stack, concat_blocks, element_tags, opt_element_tags, opt_stack_tags, opt_view, stack_tags, Tag, XmlFragment,
};

verus! {

/// Types which can be converted into a response
pub trait S3Output: Sized {
    /// What converting `self` may give
    spec fn renders_to(self, r: S3Result<S3Response, NoError>) -> bool;

    /// Try to convert into a response; an `Err` is a failure to be rendered
    /// by outer layers
    fn try_into_response(self) -> (r: S3Result<S3Response, NoError>)
        ensures
            self.renders_to(r),
    ;
}

/// A transport failure, handed on unrendered
pub open spec fn propagated<E>(e: S3Error<E>, r: S3Result<S3Response, NoError>) -> bool {
    match e {
        S3Error::InvalidRequest(m) => r == Err::<S3Response, S3Error<NoError>>(S3Error::InvalidRequest(m)),
        S3Error::InvalidOutput(f) => r == Err::<S3Response, S3Error<NoError>>(S3Error::InvalidOutput(f)),
        S3Error::Storage(m) => r == Err::<S3Response, S3Error<NoError>>(S3Error::Storage(m)),
        S3Error::NotSupported => r == Err::<S3Response, S3Error<NoError>>(S3Error::NotSupported),
        S3Error::Operation(_) => true,
    }
}

impl<T: S3Output, E: S3Output> S3Output for S3Result<T, E> {
    open spec fn renders_to(self, r: S3Result<S3Response, NoError>) -> bool {
        match self {
            Ok(o) => o.renders_to(r),
            Err(S3Error::Operation(e)) => e.renders_to(r),
            Err(e) => propagated(e, r),
        }
    }

    fn try_into_response(self) -> (r: S3Result<S3Response, NoError>) {
        match self {
            Ok(output) => output.try_into_response(),
            Err(err) => match err {
                S3Error::Operation(e) => e.try_into_response(),
                S3Error::InvalidRequest(e) => Err(S3Error::InvalidRequest(e)),
                S3Error::InvalidOutput(e) => Err(S3Error::InvalidOutput(e)),
                S3Error::Storage(e) => Err(S3Error::Storage(e)),
                S3Error::NotSupported => Err(S3Error::NotSupported),
            },
        }
    }
}

/// Maps a failure to set a header to an invalid-output error
pub fn wrap_output(r: Result<S3Response, OutputFault>) -> (o: S3Result<S3Response, NoError>)
    ensures
        match r {
            Ok(res) => o == Ok::<S3Response, S3Error<NoError>>(res),
            Err(f) => o == Err::<S3Response, S3Error<NoError>>(S3Error::InvalidOutput(f)),
        },
{
    match r {
        Ok(res) => Ok(res),
        Err(e) => Err(S3Error::InvalidOutput(e)),
    }
}

// ---- decimal text ----

pub open spec fn digits_of(n: nat) -> Seq<char>
    decreases n,
{
    if n < 10 {
        seq!["0123456789"@[n as int]]
    } else {
        digits_of(n / 10) + seq!["0123456789"@[(n % 10) as int]]
    }
}

/// The decimal text of an integer, with `-` before a negative one
pub open spec fn int_text(n: int) -> Seq<char> {
    if n < 0 {
        seq!['-'] + digits_of((-n) as nat)
    } else {
        digits_of(n as nat)
    }
}

pub open spec fn opt_int_text(n: Option<i64>) -> Option<Seq<char>> {
    match n {
        Some(v) => Some(int_text(v as int)),
        None => None,
    }
}

fn digit_text(d: u64) -> (r: &'static str)
    requires
        d < 10,
    ensures
        r@ == seq!["0123456789"@[d as int]],
{
    let all = "0123456789";
    proof {
        reveal_strlit("0123456789");
    }
    let r = all.substring_char(d as usize, (d + 1) as usize);
    assert(r@ =~= seq!["0123456789"@[d as int]]);
    r
}

/// Decimal digits of `n`, without leading zeros
fn nat_text(n: u64) -> (r: String)
    ensures
        r@ == digits_of(n as nat),
    decreases n,
{
    if n < 10 {
        digit_text(n).to_owned()
    } else {
        let mut s = nat_text(n / 10);
        s.append(digit_text(n % 10));
        s
    }
}

/// Decimal text of `n`, with `-` before a negative number
fn i64_text(n: i64) -> (r: String)
    ensures
        r@ == int_text(n as int),
{
    if n < 0 {
        let m: u64 = (-(n as i128)) as u64;
        let mut s = "-".to_owned();
        proof {
            reveal_strlit("-");
        }
        s.append(nat_text(m).as_str());
        s
    } else {
        nat_text(n as u64)
    }
}

fn opt_i64_text(n: Option<i64>) -> (r: Option<String>)
    ensures
        opt_view(r) == opt_int_text(n),
{
    match n {
        Some(v) => Some(i64_text(v)),
        None => None,
    }
}

pub open spec fn bool_text(b: bool) -> Seq<char> {
    if b { "true"@ } else { "false"@ }
}

fn opt_bool_text(b: Option<bool>) -> (r: Option<String>)
    ensures
        opt_view(r) == match b {
            Some(v) => Some(bool_text(v)),
            None => None::<Seq<char>>,
        },
{
    match b {
        Some(true) => Some("true".to_owned()),
        Some(false) => Some("false".to_owned()),
        None => None,
    }
}

// ---- error documents ----

/// Type representing an error response
pub struct XmlErrorResponse {
    pub code: S3ErrorCode,
    pub message: Option<String>,
    pub resource: Option<String>,
    pub request_id: Option<String>,
}

/// `<Error>` with `Code`, then `Message`, `Resource`, `RequestId` where present
pub open spec fn error_tags(
    code: S3ErrorCode,
    message: Option<Seq<char>>,
    resource: Option<Seq<char>>,
    request_id: Option<Seq<char>>,
) -> Seq<Tag> {
    stack_tags(
        "Error"@,
        element_tags("Code"@, code_name(code)) + opt_element_tags("Message"@, message)
            + opt_element_tags("Resource"@, resource) + opt_element_tags("RequestId"@, request_id),
    )
}

pub proof fn lemma_error_balanced(
    code: S3ErrorCode,
    message: Option<Seq<char>>,
    resource: Option<Seq<char>>,
    request_id: Option<Seq<char>>,
)
    ensures
        balanced(error_tags(code, message, resource, request_id)),
{
    let c = element_tags("Code"@, code_name(code));
    let m = opt_element_tags("Message"@, message);
    let rs = opt_element_tags("Resource"@, resource);
    let q = opt_element_tags("RequestId"@, request_id);
    lemma_balanced_element("Code"@, code_name(code));
    lemma_balanced_opt_element("Message"@, message);
    lemma_balanced_opt_element("Resource"@, resource);
    lemma_balanced_opt_element("RequestId"@, request_id);
    lemma_balanced_add(c, m);
    lemma_balanced_add(c + m, rs);
    lemma_balanced_add(c + m + rs, q);
    lemma_balanced_stack("Error"@, c + m + rs + q);
}

/// How a business error with `code` and `message` renders
pub open spec fn error_rendered(r: S3Result<S3Response, NoError>, code: S3ErrorCode, message: Option<String>) -> bool {
    xml_rendered(r, status_or_default(code), error_tags(code, opt_view(message), None, None))
}

impl XmlErrorResponse {
    /// Constructs a `XmlErrorResponse`
    pub fn from_code_msg(code: S3ErrorCode, message: Option<String>) -> (r: XmlErrorResponse)
        ensures
            r.code == code,
            r.message == message,
            r.resource is None,
            r.request_id is None,
    {
        XmlErrorResponse { code, message, resource: None, request_id: None }
    }

    /// The body of the error document
    pub fn to_xml(self) -> (r: XmlFragment)
        ensures
            r@ == error_tags(self.code, opt_view(self.message), opt_view(self.resource), opt_view(self.request_id)),
    {
        let mut inner = XmlFragment::new();
        inner.element("Code", self.code.to_string());
        inner.opt_element("Message", self.message);
        inner.opt_element("Resource", self.resource);
        inner.opt_element("RequestId", self.request_id);
        let mut w = XmlFragment::new();
        w.stack("Error", inner);
        assert(w@ =~= error_tags(self.code, opt_view(self.message), opt_view(self.resource), opt_view(self.request_id)));
        w
    }
}

impl S3Output for XmlErrorResponse {
    open spec fn renders_to(self, r: S3Result<S3Response, NoError>) -> bool {
        xml_rendered(
            r,
            status_or_default(self.code),
            error_tags(self.code, opt_view(self.message), opt_view(self.resource), opt_view(self.request_id)),
        )
    }

    fn try_into_response(self) -> (r: S3Result<S3Response, NoError>) {
        proof {
            lemma_error_balanced(self.code, opt_view(self.message), opt_view(self.resource), opt_view(self.request_id));
        }
        let status = match self.code.as_status_code() {
            Some(s) => s,
            None => 500,
        };
        wrap_xml_output(self.to_xml(), status, 64)
    }
}

/// Renders a business error variant
fn render_error(code: S3ErrorCode, message: Option<String>) -> (r: S3Result<S3Response, NoError>)
    ensures
        error_rendered(r, code, message),
{
    XmlErrorResponse::from_code_msg(code, message).try_into_response()
}

// ---- responses without a body of their own ----

/// A response that was built
pub open spec fn built(
    r: S3Result<S3Response, NoError>,
    status: u16,
    headers: Seq<(HeaderName, Seq<char>)>,
    body: ResponseBody,
) -> bool {
    r matches Ok(resp) && resp.status == status && resp.headers_view() == headers && resp.body == body
}

/// A value that could not be rendered
pub open spec fn faulted(r: S3Result<S3Response, NoError>, f: OutputFault) -> bool {
    r == Err::<S3Response, S3Error<NoError>>(S3Error::InvalidOutput(f))
}

impl S3Output for CreateBucketOutput {
    open spec fn renders_to(self, r: S3Result<S3Response, NoError>) -> bool {
        let loc = opt_view(self.location);
        if header_ok(loc) {
            built(r, 200, opt_header(HeaderName::Location, loc), ResponseBody::Empty)
        } else {
            faulted(r, OutputFault::InvalidHeaderValue(HeaderName::Location))
        }
    }

    fn try_into_response(self) -> (r: S3Result<S3Response, NoError>) {
        let mut res = S3Response::new(ResponseBody::Empty);
        let set = res.set_opt_header(HeaderName::Location, self.location);
        assert(res.headers_view() =~= opt_header(HeaderName::Location, opt_view(self.location)) || set is Err);
        wrap_output(
            match set {
                Ok(()) => Ok(res),
                Err(e) => Err(e),
            },
        )
    }
}

impl S3Output for DeleteBucketOutput {
    open spec fn renders_to(self, r: S3Result<S3Response, NoError>) -> bool {
        built(r, 204, Seq::empty(), ResponseBody::Empty)
    }

    fn try_into_response(self) -> (r: S3Result<S3Response, NoError>) {
        Ok(S3Response::new_with_status(ResponseBody::Empty, 204))
    }
}

impl S3Output for DeleteObjectOutput {
    open spec fn renders_to(self, r: S3Result<S3Response, NoError>) -> bool {
        built(r, 200, Seq::empty(), ResponseBody::Empty)
    }

    fn try_into_response(self) -> (r: S3Result<S3Response, NoError>) {
        Ok(S3Response::new(ResponseBody::Empty))
    }
}

impl S3Output for HeadBucketOutput {
    open spec fn renders_to(self, r: S3Result<S3Response, NoError>) -> bool {
        built(r, 200, Seq::empty(), ResponseBody::Empty)
    }

    fn try_into_response(self) -> (r: S3Result<S3Response, NoError>) {
        Ok(S3Response::new(ResponseBody::Empty))
    }
}

impl S3Output for PutObjectOutput {
    open spec fn renders_to(self, r: S3Result<S3Response, NoError>) -> bool {
        built(r, 200, Seq::empty(), ResponseBody::Empty)
    }

    fn try_into_response(self) -> (r: S3Result<S3Response, NoError>) {
        Ok(S3Response::new(ResponseBody::Empty))
    }
}

/// The body of an object response: its stream where there is one
pub open spec fn stream_body(b: Option<hyper::Body>) -> ResponseBody {
    match b {
        Some(s) => ResponseBody::Stream(s),
        None => ResponseBody::Empty,
    }
}

impl S3Output for GetObjectOutput {
    /// Headers are set in order; the first that fails decides the error
    open spec fn renders_to(self, r: S3Result<S3Response, NoError>) -> bool {
        let cl = opt_int_text(self.content_length);
        let ct = opt_view(self.content_type);
        if !header_ok(cl) {
            faulted(r, OutputFault::InvalidHeaderValue(HeaderName::ContentLength))
        } else if !header_ok(ct) {
            faulted(r, OutputFault::InvalidHeaderValue(HeaderName::ContentType))
        } else {
            match opt_last_modified(opt_view(self.last_modified)) {
                None => faulted(r, OutputFault::InvalidTimestamp),
                Some(lm) => if !header_ok(lm) {
                    faulted(r, OutputFault::InvalidHeaderValue(HeaderName::LastModified))
                } else {
                    built(
                        r,
                        200,
                        opt_header(HeaderName::ContentLength, cl) + opt_header(HeaderName::ContentType, ct)
                            + opt_header(HeaderName::LastModified, lm),
                        stream_body(self.body),
                    )
                },
            }
        }
    }

    fn try_into_response(self) -> (r: S3Result<S3Response, NoError>) {
        let body = match self.body {
            Some(b) => ResponseBody::Stream(b),
            None => ResponseBody::Empty,
        };
        let mut res = S3Response::new(body);
        let ghost h0 = res.headers_view();
        if let Err(e) = res.set_opt_header(HeaderName::ContentLength, opt_i64_text(self.content_length)) {
            return Err(S3Error::InvalidOutput(e));
        }
        if let Err(e) = res.set_opt_header(HeaderName::ContentType, self.content_type) {
            return Err(S3Error::InvalidOutput(e));
        }
        let lm = match map_opt_rfc3339_to_last_modified(self.last_modified) {
            Ok(lm) => lm,
            Err(e) => return Err(S3Error::InvalidOutput(e)),
        };
        if let Err(e) = res.set_opt_header(HeaderName::LastModified, lm) {
            return Err(S3Error::InvalidOutput(e));
        }
        assert(h0 + opt_header(HeaderName::ContentLength, opt_int_text(self.content_length)) =~= opt_header(
            HeaderName::ContentLength,
            opt_int_text(self.content_length),
        ));
        Ok(res)
    }
}

impl S3Output for HeadObjectOutput {
    /// Headers are set in order; the first that fails decides the error
    open spec fn renders_to(self, r: S3Result<S3Response, NoError>) -> bool {
        let ct = opt_view(self.content_type);
        let cl = opt_int_text(self.content_length);
        let et = opt_view(self.e_tag);
        let ex = opt_view(self.expires);
        if !header_ok(ct) {
            faulted(r, OutputFault::InvalidHeaderValue(HeaderName::ContentType))
        } else if !header_ok(cl) {
            faulted(r, OutputFault::InvalidHeaderValue(HeaderName::ContentLength))
        } else {
            match opt_last_modified(opt_view(self.last_modified)) {
                None => faulted(r, OutputFault::InvalidTimestamp),
                Some(lm) => if !header_ok(lm) {
                    faulted(r, OutputFault::InvalidHeaderValue(HeaderName::LastModified))
                } else if !header_ok(et) {
                    faulted(r, OutputFault::InvalidHeaderValue(HeaderName::ETag))
                } else if !header_ok(ex) {
                    faulted(r, OutputFault::InvalidHeaderValue(HeaderName::Expires))
                } else {
                    built(
                        r,
                        200,
                        opt_header(HeaderName::ContentType, ct) + opt_header(HeaderName::ContentLength, cl)
                            + opt_header(HeaderName::LastModified, lm) + opt_header(HeaderName::ETag, et)
                            + opt_header(HeaderName::Expires, ex),
                        ResponseBody::Empty,
                    )
                },
            }
        }
    }

    fn try_into_response(self) -> (r: S3Result<S3Response, NoError>) {
        let mut res = S3Response::new(ResponseBody::Empty);
        let ghost h0 = res.headers_view();
        if let Err(e) = res.set_opt_header(HeaderName::ContentType, self.content_type) {
            return Err(S3Error::InvalidOutput(e));
        }
        if let Err(e) = res.set_opt_header(HeaderName::ContentLength, opt_i64_text(self.content_length)) {
            return Err(S3Error::InvalidOutput(e));
        }
        let lm = match map_opt_rfc3339_to_last_modified(self.last_modified) {
            Ok(lm) => lm,
            Err(e) => return Err(S3Error::InvalidOutput(e)),
        };
        if let Err(e) = res.set_opt_header(HeaderName::LastModified, lm) {
            return Err(S3Error::InvalidOutput(e));
        }
        if let Err(e) = res.set_opt_header(HeaderName::ETag, self.e_tag) {
            return Err(S3Error::InvalidOutput(e));
        }
        if let Err(e) = res.set_opt_header(HeaderName::Expires, self.expires) {
            return Err(S3Error::InvalidOutput(e));
        }
        assert(h0 + opt_header(HeaderName::ContentType, opt_view(self.content_type)) =~= opt_header(
            HeaderName::ContentType,
            opt_view(self.content_type),
        ));
        Ok(res)
    }
}

// ---- XML bodies ----

pub open spec fn location_tags(lc: Option<String>) -> Seq<Tag> {
    element_tags(
        "LocationConstraint"@,
        match lc {
            Some(s) => s@,
            None => Seq::empty(),
        },
    )
}

impl S3Output for GetBucketLocationOutput {
    open spec fn renders_to(self, r: S3Result<S3Response, NoError>) -> bool {
        xml_rendered(r, 200, location_tags(self.location_constraint))
    }

    fn try_into_response(self) -> (r: S3Result<S3Response, NoError>) {
        let text = match self.location_constraint {
            Some(s) => s,
            None => String::new(),
        };
        let mut w = XmlFragment::new();
        w.element("LocationConstraint", text);
        assert(w@ =~= location_tags(self.location_constraint));
        proof {
            lemma_balanced_element("LocationConstraint"@, text@);
        }
        wrap_xml_output(w, 200, 4096)
    }
}

/// An item written as one block of XML
pub trait ToXml: Sized {
    spec fn tags(self) -> Seq<Tag>;

    proof fn lemma_tags_balanced(self)
        ensures
            balanced(self.tags()),
    ;

    fn to_xml(self) -> (r: XmlFragment)
        ensures
            r@ == self.tags(),
    ;
}

/// The blocks of a sequence of items, in order
pub open spec fn item_tags<T: ToXml>(items: Seq<T>) -> Seq<Tag> {
    concat_blocks(items.map_values(|t: T| t.tags()))
}

pub open spec fn opt_items_tags<T: ToXml>(items: Option<Vec<T>>) -> Option<Seq<Tag>> {
    match items {
        Some(v) => Some(item_tags(v@)),
        None => None,
    }
}

pub proof fn lemma_items_balanced<T: ToXml>(items: Seq<T>)
    ensures
        balanced(item_tags(items)),
{
    let blocks = items.map_values(|t: T| t.tags());
    assert forall|i: int| 0 <= i < blocks.len() implies balanced(#[trigger] blocks[i]) by {
        items[i].lemma_tags_balanced();
    }
    lemma_balanced_concat(blocks);
}

/// Writes one block per item, in order
pub fn write_items<T: ToXml>(w: &mut XmlFragment, items: Vec<T>)
    ensures
        final(w)@ == old(w)@ + item_tags(items@),
{
    let ghost src = items@;
    let n: usize = items.len();
    let mut rest = items;
    let mut blocks: Vec<XmlFragment> = Vec::new();
    let mut i: usize = 0;
    while rest.len() > 0
        invariant
            i + rest@.len() == src.len(),
            src.len() == n,
            rest@ == src.subrange(i as int, src.len() as int),
            blocks@.len() == i,
            forall|k: int| 0 <= k < i ==> #[trigger] blocks@[k]@ == src[k].tags(),
        decreases rest@.len(),
    {
        assert(rest@[0] == src[i as int]);
        let t = rest.remove(0);
        let b = t.to_xml();
        blocks.push(b);
        i = i + 1;
        assert(rest@ =~= src.subrange(i as int, src.len() as int));
    }
    assert(blocks@.map_values(|b: XmlFragment| b@) =~= src.map_values(|t: T| t.tags()));
    w.iter_element(blocks);
}

/// Owner of a bucket listing: `DisplayName`, then `ID`
pub open spec fn bucket_owner_tags(o: Owner) -> Seq<Tag> {
    opt_element_tags("DisplayName"@, opt_view(o.display_name)) + opt_element_tags("ID"@, opt_view(o.id))
}

/// Owner of an object listing: `ID`, then `DisplayName`
pub open spec fn object_owner_tags(o: Owner) -> Seq<Tag> {
    opt_element_tags("ID"@, opt_view(o.id)) + opt_element_tags("DisplayName"@, opt_view(o.display_name))
}

proof fn lemma_bucket_owner_balanced(o: Owner)
    ensures
        balanced(bucket_owner_tags(o)),
{
    lemma_balanced_opt_element("DisplayName"@, opt_view(o.display_name));
    lemma_balanced_opt_element("ID"@, opt_view(o.id));
    lemma_balanced_add(
        opt_element_tags("DisplayName"@, opt_view(o.display_name)),
        opt_element_tags("ID"@, opt_view(o.id)),
    );
}

proof fn lemma_object_owner_balanced(o: Owner)
    ensures
        balanced(object_owner_tags(o)),
{
    lemma_balanced_opt_element("DisplayName"@, opt_view(o.display_name));
    lemma_balanced_opt_element("ID"@, opt_view(o.id));
    lemma_balanced_add(
        opt_element_tags("ID"@, opt_view(o.id)),
        opt_element_tags("DisplayName"@, opt_view(o.display_name)),
    );
}

fn bucket_owner_xml(o: Owner) -> (r: XmlFragment)
    ensures
        r@ == bucket_owner_tags(o),
{
    let mut w = XmlFragment::new();
    w.opt_element("DisplayName", o.display_name);
    w.opt_element("ID", o.id);
    assert(w@ =~= bucket_owner_tags(o));
    w
}

fn object_owner_xml(o: Owner) -> (r: XmlFragment)
    ensures
        r@ == object_owner_tags(o),
{
    let mut w = XmlFragment::new();
    w.opt_element("ID", o.id);
    w.opt_element("DisplayName", o.display_name);
    assert(w@ =~= object_owner_tags(o));
    w
}

impl ToXml for Bucket {
    open spec fn tags(self) -> Seq<Tag> {
        stack_tags(
            "Bucket"@,
            opt_element_tags("CreationDate"@, opt_view(self.creation_date)) + opt_element_tags(
                "Name"@,
                opt_view(self.name),
            ),
        )
    }

    proof fn lemma_tags_balanced(self) {
        let a = opt_element_tags("CreationDate"@, opt_view(self.creation_date));
        let b = opt_element_tags("Name"@, opt_view(self.name));
        lemma_balanced_opt_element("CreationDate"@, opt_view(self.creation_date));
        lemma_balanced_opt_element("Name"@, opt_view(self.name));
        lemma_balanced_add(a, b);
        lemma_balanced_stack("Bucket"@, a + b);
    }

    fn to_xml(self) -> (r: XmlFragment) {
        let mut inner = XmlFragment::new();
        inner.opt_element("CreationDate", self.creation_date);
        inner.opt_element("Name", self.name);
        let mut w = XmlFragment::new();
        w.stack("Bucket", inner);
        assert(w@ =~= self.tags());
        w
    }
}

impl ToXml for Object {
    open spec fn tags(self) -> Seq<Tag> {
        stack_tags(
            "Contents"@,
            opt_element_tags("Key"@, opt_view(self.key)) + opt_element_tags("LastModified"@, opt_view(self.last_modified))
                + opt_element_tags("ETag"@, opt_view(self.e_tag)) + opt_element_tags("Size"@, opt_int_text(self.size))
                + opt_element_tags("StorageClass"@, opt_view(self.storage_class)) + opt_stack_tags(
                "Owner"@,
                match self.owner {
                    Some(o) => Some(object_owner_tags(o)),
                    None => None,
                },
            ),
        )
    }

    proof fn lemma_tags_balanced(self) {
        let k = opt_element_tags("Key"@, opt_view(self.key));
        let l = opt_element_tags("LastModified"@, opt_view(self.last_modified));
        let e = opt_element_tags("ETag"@, opt_view(self.e_tag));
        let z = opt_element_tags("Size"@, opt_int_text(self.size));
        let c = opt_element_tags("StorageClass"@, opt_view(self.storage_class));
        let ow = match self.owner {
            Some(o) => Some(object_owner_tags(o)),
            None => None,
        };
        let o = opt_stack_tags("Owner"@, ow);
        lemma_balanced_opt_element("Key"@, opt_view(self.key));
        lemma_balanced_opt_element("LastModified"@, opt_view(self.last_modified));
        lemma_balanced_opt_element("ETag"@, opt_view(self.e_tag));
        lemma_balanced_opt_element("Size"@, opt_int_text(self.size));
        lemma_balanced_opt_element("StorageClass"@, opt_view(self.storage_class));
        if let Some(x) = self.owner {
            lemma_object_owner_balanced(x);
        }
        lemma_balanced_opt_stack("Owner"@, ow);
        lemma_balanced_add(k, l);
        lemma_balanced_add(k + l, e);
        lemma_balanced_add(k + l + e, z);
        lemma_balanced_add(k + l + e + z, c);
        lemma_balanced_add(k + l + e + z + c, o);
        lemma_balanced_stack("Contents"@, k + l + e + z + c + o);
    }

    fn to_xml(self) -> (r: XmlFragment) {
        let mut inner = XmlFragment::new();
        inner.opt_element("Key", self.key);
        inner.opt_element("LastModified", self.last_modified);
        inner.opt_element("ETag", self.e_tag);
        inner.opt_element("Size", opt_i64_text(self.size));
        inner.opt_element("StorageClass", self.storage_class);
        let owner = match self.owner {
            Some(o) => Some(object_owner_xml(o)),
            None => None,
        };
        inner.opt_stack("Owner", owner);
        let mut w = XmlFragment::new();
        w.stack("Contents", inner);
        assert(w@ =~= self.tags());
        w
    }
}

impl ToXml for CommonPrefix {
    open spec fn tags(self) -> Seq<Tag> {
        opt_element_tags("Prefix"@, opt_view(self.prefix))
    }

    proof fn lemma_tags_balanced(self) {
        lemma_balanced_opt_element("Prefix"@, opt_view(self.prefix));
    }

    fn to_xml(self) -> (r: XmlFragment) {
        let mut w = XmlFragment::new();
        w.opt_element("Prefix", self.prefix);
        assert(w@ =~= self.tags());
        w
    }
}

pub open spec fn list_buckets_tags(o: ListBucketsOutput) -> Seq<Tag> {
    stack_tags(
        "ListBucketsOutput"@,
        opt_stack_tags("Buckets"@, opt_items_tags(o.buckets)) + opt_stack_tags(
            "Owner"@,
            match o.owner {
                Some(ow) => Some(bucket_owner_tags(ow)),
                None => None,
            },
        ),
    )
}

pub proof fn lemma_list_buckets_balanced(o: ListBucketsOutput)
    ensures
        balanced(list_buckets_tags(o)),
{
    let bi = opt_items_tags(o.buckets);
    if let Some(bs) = o.buckets {
        lemma_items_balanced(bs@);
    }
    let ow = match o.owner {
        Some(x) => Some(bucket_owner_tags(x)),
        None => None,
    };
    if let Some(x) = o.owner {
        lemma_bucket_owner_balanced(x);
    }
    lemma_balanced_opt_stack("Buckets"@, bi);
    lemma_balanced_opt_stack("Owner"@, ow);
    lemma_balanced_add(opt_stack_tags("Buckets"@, bi), opt_stack_tags("Owner"@, ow));
    lemma_balanced_stack("ListBucketsOutput"@, opt_stack_tags("Buckets"@, bi) + opt_stack_tags("Owner"@, ow));
}

impl ListBucketsOutput {
    /// The body of the listing
    pub fn to_xml(self) -> (r: XmlFragment)
        ensures
            r@ == list_buckets_tags(self),
    {
        let buckets = match self.buckets {
            Some(bs) => {
                let mut b = XmlFragment::new();
                write_items(&mut b, bs);
                assert(b@ =~= item_tags(bs@));
                Some(b)
            },
            None => None,
        };
        let owner = match self.owner {
            Some(o) => Some(bucket_owner_xml(o)),
            None => None,
        };
        let mut inner = XmlFragment::new();
        inner.opt_stack("Buckets", buckets);
        inner.opt_stack("Owner", owner);
        let mut w = XmlFragment::new();
        w.stack("ListBucketsOutput", inner);
        assert(w@ =~= list_buckets_tags(self));
        w
    }
}

impl S3Output for ListBucketsOutput {
    open spec fn renders_to(self, r: S3Result<S3Response, NoError>) -> bool {
        xml_rendered(r, 200, list_buckets_tags(self))
    }

    fn try_into_response(self) -> (r: S3Result<S3Response, NoError>) {
        proof {
            lemma_list_buckets_balanced(self);
        }
        wrap_xml_output(self.to_xml(), 200, 4096)
    }
}

pub open spec fn list_objects_tags(o: ListObjectsOutput) -> Seq<Tag> {
    stack_tags(
        "ListBucketResult"@,
        opt_element_tags(
            "IsTruncated"@,
            match o.is_truncated {
                Some(b) => Some(bool_text(b)),
                None => None,
            },
        ) + opt_element_tags("Marker"@, opt_view(o.marker)) + opt_element_tags("NextMarker"@, opt_view(o.next_marker))
            + match o.contents {
            Some(cs) => item_tags(cs@),
            None => Seq::empty(),
        } + opt_element_tags("Name"@, opt_view(o.name)) + opt_element_tags("Prefix"@, opt_view(o.prefix))
            + opt_element_tags("Delimiter"@, opt_view(o.delimiter)) + opt_element_tags("MaxKeys"@, opt_int_text(o.max_keys))
            + opt_stack_tags("CommonPrefixes"@, opt_items_tags(o.common_prefixes)) + opt_element_tags(
            "EncodingType"@,
            opt_view(o.encoding_type),
        ),
    )
}

pub proof fn lemma_list_objects_balanced(o: ListObjectsOutput)
    ensures
        balanced(list_objects_tags(o)),
{
    let t = opt_element_tags(
        "IsTruncated"@,
        match o.is_truncated {
            Some(b) => Some(bool_text(b)),
            None => None,
        },
    );
    let mk = opt_element_tags("Marker"@, opt_view(o.marker));
    let nm = opt_element_tags("NextMarker"@, opt_view(o.next_marker));
    let cs = match o.contents {
        Some(cs) => item_tags(cs@),
        None => Seq::empty(),
    };
    let na = opt_element_tags("Name"@, opt_view(o.name));
    let pr = opt_element_tags("Prefix"@, opt_view(o.prefix));
    let de = opt_element_tags("Delimiter"@, opt_view(o.delimiter));
    let mx = opt_element_tags("MaxKeys"@, opt_int_text(o.max_keys));
    let cp = opt_stack_tags("CommonPrefixes"@, opt_items_tags(o.common_prefixes));
    let et = opt_element_tags("EncodingType"@, opt_view(o.encoding_type));
    lemma_balanced_opt_element("IsTruncated"@, match o.is_truncated {
        Some(b) => Some(bool_text(b)),
        None => None,
    });
    lemma_balanced_opt_element("Marker"@, opt_view(o.marker));
    lemma_balanced_opt_element("NextMarker"@, opt_view(o.next_marker));
    if let Some(c) = o.contents {
        lemma_items_balanced(c@);
    } else {
        assert(balanced(Seq::<Tag>::empty()));
    }
    lemma_balanced_opt_element("Name"@, opt_view(o.name));
    lemma_balanced_opt_element("Prefix"@, opt_view(o.prefix));
    lemma_balanced_opt_element("Delimiter"@, opt_view(o.delimiter));
    lemma_balanced_opt_element("MaxKeys"@, opt_int_text(o.max_keys));
    if let Some(p) = o.common_prefixes {
        lemma_items_balanced(p@);
    }
    lemma_balanced_opt_stack("CommonPrefixes"@, opt_items_tags(o.common_prefixes));
    lemma_balanced_opt_element("EncodingType"@, opt_view(o.encoding_type));
    lemma_balanced_add(t, mk);
    lemma_balanced_add(t + mk, nm);
    lemma_balanced_add(t + mk + nm, cs);
    lemma_balanced_add(t + mk + nm + cs, na);
    lemma_balanced_add(t + mk + nm + cs + na, pr);
    lemma_balanced_add(t + mk + nm + cs + na + pr, de);
    lemma_balanced_add(t + mk + nm + cs + na + pr + de, mx);
    lemma_balanced_add(t + mk + nm + cs + na + pr + de + mx, cp);
    lemma_balanced_add(t + mk + nm + cs + na + pr + de + mx + cp, et);
    lemma_balanced_stack("ListBucketResult"@, t + mk + nm + cs + na + pr + de + mx + cp + et);
}

impl ListObjectsOutput {
    /// The body of the listing
    pub fn to_xml(self) -> (r: XmlFragment)
        ensures
            r@ == list_objects_tags(self),
    {
        let mut inner = XmlFragment::new();
        inner.opt_element("IsTruncated", opt_bool_text(self.is_truncated));
        inner.opt_element("Marker", self.marker);
        inner.opt_element("NextMarker", self.next_marker);
        let ghost before = inner@;
        match self.contents {
            Some(cs) => write_items(&mut inner, cs),
            None => {
                assert(before + Seq::<Tag>::empty() =~= before);
            },
        }
        inner.opt_element("Name", self.name);
        inner.opt_element("Prefix", self.prefix);
        inner.opt_element("Delimiter", self.delimiter);
        inner.opt_element("MaxKeys", opt_i64_text(self.max_keys));
        let prefixes = match self.common_prefixes {
            Some(ps) => {
                let mut b = XmlFragment::new();
                write_items(&mut b, ps);
                assert(b@ =~= item_tags(ps@));
                Some(b)
            },
            None => None,
        };
        inner.opt_stack("CommonPrefixes", prefixes);
        inner.opt_element("EncodingType", self.encoding_type);
        let mut w = XmlFragment::new();
        w.stack("ListBucketResult", inner);
        assert(w@ =~= list_objects_tags(self));
        w
    }
}

impl S3Output for ListObjectsOutput {
    open spec fn renders_to(self, r: S3Result<S3Response, NoError>) -> bool {
        xml_rendered(r, 200, list_objects_tags(self))
    }

    fn try_into_response(self) -> (r: S3Result<S3Response, NoError>) {
        proof {
            lemma_list_objects_balanced(self);
        }
        wrap_xml_output(self.to_xml(), 200, 4096)
    }
}

impl S3Output for ListObjectsError {
    open spec fn renders_to(self, r: S3Result<S3Response, NoError>) -> bool {
        match self {
            ListObjectsError::NoSuchBucket(m) => error_rendered(r, S3ErrorCode::NoSuchBucket, m),
        }
    }

    fn try_into_response(self) -> (r: S3Result<S3Response, NoError>) {
        match self {
            ListObjectsError::NoSuchBucket(m) => render_error(S3ErrorCode::NoSuchBucket, m),
        }
    }
}

// ---- business errors ----

impl S3Output for CreateBucketError {
    open spec fn renders_to(self, r: S3Result<S3Response, NoError>) -> bool {
        match self {
            CreateBucketError::BucketAlreadyExists(m) => error_rendered(r, S3ErrorCode::BucketAlreadyExists, m),
            CreateBucketError::BucketAlreadyOwnedByYou(m) => error_rendered(r, S3ErrorCode::BucketAlreadyOwnedByYou, m),
        }
    }

    fn try_into_response(self) -> (r: S3Result<S3Response, NoError>) {
        match self {
            CreateBucketError::BucketAlreadyExists(m) => render_error(S3ErrorCode::BucketAlreadyExists, m),
            CreateBucketError::BucketAlreadyOwnedByYou(m) => render_error(S3ErrorCode::BucketAlreadyOwnedByYou, m),
        }
    }
}

impl S3Output for GetObjectError {
    open spec fn renders_to(self, r: S3Result<S3Response, NoError>) -> bool {
        match self {
            GetObjectError::NoSuchKey(m) => error_rendered(r, S3ErrorCode::NoSuchKey, m),
        }
    }

    fn try_into_response(self) -> (r: S3Result<S3Response, NoError>) {
        match self {
            GetObjectError::NoSuchKey(m) => render_error(S3ErrorCode::NoSuchKey, m),
        }
    }
}

impl S3Output for HeadBucketError {
    open spec fn renders_to(self, r: S3Result<S3Response, NoError>) -> bool {
        match self {
            HeadBucketError::NoSuchBucket(m) => error_rendered(r, S3ErrorCode::NoSuchBucket, m),
        }
    }

    fn try_into_response(self) -> (r: S3Result<S3Response, NoError>) {
        match self {
            HeadBucketError::NoSuchBucket(m) => render_error(S3ErrorCode::NoSuchBucket, m),
        }
    }
}

impl S3Output for HeadObjectError {
    open spec fn renders_to(self, r: S3Result<S3Response, NoError>) -> bool {
        match self {
            HeadObjectError::NoSuchKey(m) => error_rendered(r, S3ErrorCode::NoSuchKey, m),
        }
    }

    fn try_into_response(self) -> (r: S3Result<S3Response, NoError>) {
        match self {
            HeadObjectError::NoSuchKey(m) => render_error(S3ErrorCode::NoSuchKey, m),
        }
    }
}

} // verus!
