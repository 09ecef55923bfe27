//! The response under construction: status, headers and body
use vstd::prelude::*;
use crate::error::{HeaderName, NoError, OutputFault, S3Error};
use crate::xml_tree::{
    balanced, document, document_tags, lemma_document_well_formed, write_xml, xml_bytes, Tag, XmlFragment,
};

verus! {

/// hyper's body stream, carried opaque and never read here
#[verifier::external_type_specification]
#[verifier::external_body]
pub struct ExBody(hyper::Body);

/// A header and its text
pub struct Header {
    pub name: HeaderName,
    pub value: String,
}

/// What a response carries after its headers
pub enum ResponseBody {
    Empty,
    /// a rendered XML document
    Xml(Vec<u8>),
    /// a byte stream handed on without being read
    Stream(hyper::Body),
}

pub struct S3Response {
    pub status: u16,
    pub headers: Vec<Header>,
    pub body: ResponseBody,
}

pub open spec fn headers_view(h: Seq<Header>) -> Seq<(HeaderName, Seq<char>)> {
    Seq::new(h.len(), |i: int| (h[i].name, h[i].value@))
}

/// A header entry, present only when its value is
pub open spec fn opt_header(name: HeaderName, v: Option<Seq<char>>) -> Seq<(HeaderName, Seq<char>)> {
    match v {
        Some(t) => seq![(name, t)],
        None => Seq::empty(),
    }
}

/// A character that an HTTP header value may hold
pub open spec fn header_char(c: char) -> bool {
    c == '\t' || (c >= ' ' && c != '\x7f')
}

pub open spec fn valid_header_text(s: Seq<char>) -> bool {
    forall|i: int| 0 <= i < s.len() ==> header_char(#[trigger] s[i])
}

/// An optional value that is absent or fit for a header
pub open spec fn header_ok(v: Option<Seq<char>>) -> bool {
    match v {
        Some(t) => valid_header_text(t),
        None => true,
    }
}

/// Relies on `hyper::header::HeaderValue::from_str`, which accepts a text
/// exactly when each of its bytes is a tab or at least 32 and not 127 (a
/// non-ASCII character is made of bytes of 128 and above).
#[verifier::external_body]
fn header_value_ok(s: &str) -> (r: bool)
    ensures
        r == valid_header_text(s@),
{
    hyper::header::HeaderValue::from_str(s).is_ok()
}

/// Relies on `mime::TEXT_XML`, the media type `text/xml`.
#[verifier::external_body]
fn text_xml() -> (r: String)
    ensures
        r@ == "text/xml"@,
{
    mime::TEXT_XML.as_ref().to_owned()
}

impl S3Response {
    pub open spec fn headers_view(&self) -> Seq<(HeaderName, Seq<char>)> {
        headers_view(self.headers@)
    }

    /// An empty 200 response
    pub fn new(body: ResponseBody) -> (r: S3Response)
        ensures
            r.status == 200,
            r.headers_view() == Seq::<(HeaderName, Seq<char>)>::empty(),
            r.body == body,
    {
        Self::new_with_status(body, 200)
    }

    pub fn new_with_status(body: ResponseBody, status: u16) -> (r: S3Response)
        ensures
            r.status == status,
            r.headers_view() == Seq::<(HeaderName, Seq<char>)>::empty(),
            r.body == body,
    {
        let r = S3Response { status, headers: Vec::new(), body };
        assert(r.headers_view() =~= Seq::<(HeaderName, Seq<char>)>::empty());
        r
    }

    /// Sets a header when its value is present; a value that a header cannot
    /// carry is refused and leaves the response as it was
    pub fn set_opt_header(&mut self, name: HeaderName, value: Option<String>) -> (r: Result<(), OutputFault>)
        ensures
            final(self).status == old(self).status,
            final(self).body == old(self).body,
            header_ok(crate::xml_tree::opt_view(value)) ==> r is Ok
                && final(self).headers_view() == old(self).headers_view() + opt_header(
                name,
                crate::xml_tree::opt_view(value),
            ),
            !header_ok(crate::xml_tree::opt_view(value)) ==> r == Err::<(), OutputFault>(
                OutputFault::InvalidHeaderValue(name),
            ) && final(self).headers_view() == old(self).headers_view(),
    {
        match value {
            None => {
                assert(old(self).headers_view() + Seq::<(HeaderName, Seq<char>)>::empty()
                    =~= old(self).headers_view());
                Ok(())
            },
            Some(v) => {
                if header_value_ok(v.as_str()) {
                    self.headers.push(Header { name, value: v });
                    assert(final(self).headers_view() =~= old(self).headers_view() + opt_header(
                        name,
                        crate::xml_tree::opt_view(value),
                    ));
                    Ok(())
                } else {
                    Err(OutputFault::InvalidHeaderValue(name))
                }
            },
        }
    }
}

/// A response that carries `body` as a whole XML document under `status`,
/// with a `text/xml` content type
pub open spec fn xml_response(resp: S3Response, status: u16, body: Seq<Tag>) -> bool {
    resp.status == status && resp.headers_view() == seq![(HeaderName::ContentType, "text/xml"@)] && (resp.body matches ResponseBody::Xml(
        b,
    ) && b@ == xml_bytes(document_tags(body)))
}

/// Rendering an XML body succeeded with that response
pub open spec fn xml_rendered(r: Result<S3Response, S3Error<NoError>>, status: u16, body: Seq<Tag>) -> bool {
    r matches Ok(resp) && xml_response(resp, status, body)
}

/// Renders `body` as a whole XML document under `status`; `cap` is the size
/// that the buffer starts with and changes nothing else. A balanced body
/// always renders; any other may fail with an invalid-output error.
pub fn wrap_xml_output(body: XmlFragment, status: u16, cap: usize) -> (r: Result<S3Response, S3Error<NoError>>)
    ensures
        match r {
            Ok(resp) => xml_response(resp, status, body@),
            Err(e) => e == S3Error::<NoError>::InvalidOutput(OutputFault::XmlWrite),
        },
        balanced(body@) ==> r is Ok,
{
    proof {
        if balanced(body@) {
            lemma_document_well_formed(body@);
        }
    }
    let doc = document(body);
    match write_xml(&doc, cap) {
        Err(_) => Err(S3Error::InvalidOutput(OutputFault::XmlWrite)),
        Ok(bytes) => {
            let mut res = S3Response::new_with_status(ResponseBody::Xml(bytes), status);
            let ct = text_xml();
            proof {
                reveal_strlit("text/xml");
                assert(valid_header_text(ct@));
            }
            let _ = res.set_opt_header(HeaderName::ContentType, Some(ct));
            assert(res.headers_view() =~= seq![(HeaderName::ContentType, "text/xml"@)]);
            Ok(res)
        },
    }
}

} // verus!
