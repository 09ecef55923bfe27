//! Laws that the renderers obey
use vstd::prelude::*;
use crate::dto::{GetBucketLocationOutput, GetObjectOutput, Owner, HeadObjectOutput, ListBucketsOutput, ListObjectsOutput};
use crate::error::{code_name, code_status, status_or_default, HeaderName, NoError, S3ErrorCode};
use crate::output::{bucket_owner_tags, stream_body, error_rendered, error_tags, list_buckets_tags, list_objects_tags, location_tags, built, S3Output};
use crate::response::{opt_header, xml_rendered, ResponseBody, S3Response};
use crate::error::S3Result;
use crate::xml_tree::{
    concat_blocks, count_tag, document_tags, element_tags, lemma_count_tag_add, opt_element_tags, opt_stack_tags,
    stack_tags, standard_decl, Tag, XmlVersion,
};

verus! {

/// An absent optional element writes nothing; a present one writes its
/// element exactly once, with the given text
pub proof fn law_opt_element(name: Seq<char>, text: Option<Seq<char>>)
    ensures
        text is None ==> opt_element_tags(name, text) == Seq::<Tag>::empty(),
        text matches Some(t) ==> opt_element_tags(name, text) == element_tags(name, t)
            && count_tag(opt_element_tags(name, text), Tag::Open(name)) == 1
            && count_tag(opt_element_tags(name, text), Tag::Close(name)) == 1,
{
    if let Some(t) = text {
        let s = element_tags(name, t);
        reveal_with_fuel(count_tag, 4);
        assert(s.drop_last().drop_last().drop_last() =~= Seq::<Tag>::empty());
        assert(s.drop_last().drop_last() =~= seq![Tag::Open(name)]);
        assert(s.drop_last() =~= seq![Tag::Open(name), Tag::Text(t)]);
    }
}

/// An absent optional stack writes nothing, not even its wrapping element;
/// a present one writes the wrapping element once around its content
pub proof fn law_opt_stack(name: Seq<char>, inner: Option<Seq<Tag>>)
    ensures
        inner is None ==> opt_stack_tags(name, inner) == Seq::<Tag>::empty(),
        inner matches Some(i) ==> opt_stack_tags(name, inner) == seq![Tag::Open(name)] + i + seq![Tag::Close(name)]
            && count_tag(opt_stack_tags(name, inner), Tag::Open(name)) == 1 + count_tag(i, Tag::Open(name)),
{
    if let Some(i) = inner {
        reveal_with_fuel(count_tag, 2);
        lemma_count_tag_add(seq![Tag::Open(name)] + i, seq![Tag::Close(name)], Tag::Open(name));
        lemma_count_tag_add(seq![Tag::Open(name)], i, Tag::Open(name));
        assert(seq![Tag::Open(name)].drop_last() =~= Seq::<Tag>::empty());
        assert(seq![Tag::Close(name)].drop_last() =~= Seq::<Tag>::empty());
    }
}

/// Iterating over N blocks writes each block once, in input order: the
/// output is block 0, then the output of the other N - 1; over zero blocks
/// it writes nothing
pub proof fn law_iterate(blocks: Seq<Seq<Tag>>)
    ensures
        blocks.len() == 0 ==> concat_blocks(blocks) == Seq::<Tag>::empty(),
        blocks.len() > 0 ==> concat_blocks(blocks) == blocks[0] + concat_blocks(blocks.drop_first()),
    decreases blocks.len(),
{
    if blocks.len() > 1 {
        law_iterate(blocks.drop_last());
        assert(blocks.drop_last().drop_first() =~= blocks.drop_first().drop_last());
        assert(blocks.drop_first().last() == blocks.last());
    } else if blocks.len() == 1 {
        assert(blocks.drop_last() =~= Seq::<Seq<Tag>>::empty());
        assert(blocks.drop_first() =~= Seq::<Seq<Tag>>::empty());
    }
}

/// Iterating over N blocks writes N blocks: the lengths add up
pub proof fn law_iterate_length(blocks: Seq<Seq<Tag>>, t: Tag)
    ensures
        blocks.len() > 0 ==> count_tag(concat_blocks(blocks), t) == count_tag(blocks.last(), t) + count_tag(
            concat_blocks(blocks.drop_last()),
            t,
        ),
{
    if blocks.len() > 0 {
        lemma_count_tag_add(concat_blocks(blocks.drop_last()), blocks.last(), t);
    }
}

/// With every optional field absent, a bucket listing is the bare root element
pub proof fn law_list_buckets_all_absent(o: ListBucketsOutput)
    requires
        o.buckets is None,
        o.owner is None,
    ensures
        list_buckets_tags(o) == stack_tags("ListBucketsOutput"@, Seq::empty()),
{
    assert(list_buckets_tags(o) =~= stack_tags("ListBucketsOutput"@, Seq::empty()));
}

/// With every optional field absent, an object listing is the bare root element
pub proof fn law_list_objects_all_absent(o: ListObjectsOutput)
    requires
        o.is_truncated is None,
        o.marker is None,
        o.next_marker is None,
        o.contents is None,
        o.name is None,
        o.prefix is None,
        o.delimiter is None,
        o.max_keys is None,
        o.common_prefixes is None,
        o.encoding_type is None,
    ensures
        list_objects_tags(o) == stack_tags("ListBucketResult"@, Seq::empty()),
{
    assert(list_objects_tags(o) =~= stack_tags("ListBucketResult"@, Seq::empty()));
}

/// Without a location constraint the body is one `LocationConstraint`
/// element with empty text, under status 200
pub proof fn law_location_absent(o: GetBucketLocationOutput, r: S3Result<S3Response, NoError>)
    requires
        o.location_constraint is None,
        o.renders_to(r),
    ensures
        xml_rendered(r, 200, seq![Tag::Open("LocationConstraint"@), Tag::Text(Seq::empty()), Tag::Close("LocationConstraint"@)]),
{
    assert(location_tags(o.location_constraint) =~= seq![
        Tag::Open("LocationConstraint"@),
        Tag::Text(Seq::empty()),
        Tag::Close("LocationConstraint"@),
    ]);
}

/// With every optional field absent, an object's metadata response sets no header
pub proof fn law_head_object_all_absent(o: HeadObjectOutput, r: S3Result<S3Response, NoError>)
    requires
        o.content_type is None,
        o.content_length is None,
        o.last_modified is None,
        o.e_tag is None,
        o.expires is None,
        o.renders_to(r),
    ensures
        built(r, 200, Seq::empty(), ResponseBody::Empty),
{
    assert(Seq::<(HeaderName, Seq<char>)>::empty() + Seq::empty() + Seq::empty() + Seq::empty() + Seq::empty()
        =~= Seq::<(HeaderName, Seq<char>)>::empty());
}

/// With every optional header field absent, an object response sets no
/// header and carries its stream, if any
pub proof fn law_get_object_all_absent(o: GetObjectOutput, r: S3Result<S3Response, NoError>)
    requires
        o.content_type is None,
        o.content_length is None,
        o.last_modified is None,
        o.renders_to(r),
    ensures
        built(r, 200, Seq::empty(), stream_body(o.body)),
{
    assert(Seq::<(HeaderName, Seq<char>)>::empty() + Seq::empty() + Seq::empty()
        =~= Seq::<(HeaderName, Seq<char>)>::empty());
}

/// A rendered business error is an `Error` document whose first child is
/// `Code` with the code's name, under the code's status (500 where the code
/// has none); an absent message writes no `Message` element
pub proof fn law_error_code(code: S3ErrorCode, message: Option<String>, r: S3Result<S3Response, NoError>)
    requires
        error_rendered(r, code, message),
    ensures
        r matches Ok(resp) && resp.status == status_or_default(code),
        error_tags(code, crate::xml_tree::opt_view(message), None, None).subrange(0, 4) == seq![
            Tag::Open("Error"@),
            Tag::Open("Code"@),
            Tag::Text(code_name(code)),
            Tag::Close("Code"@),
        ],
        message is None ==> error_tags(code, None, None, None) == stack_tags(
            "Error"@,
            element_tags("Code"@, code_name(code)),
        ),
        code_status(code) is None ==> status_or_default(code) == 500,
{
    assert(error_tags(code, crate::xml_tree::opt_view(message), None, None).subrange(0, 4) =~= seq![
        Tag::Open("Error"@),
        Tag::Open("Code"@),
        Tag::Text(code_name(code)),
        Tag::Close("Code"@),
    ]);
    assert(error_tags(code, None, None, None) =~= stack_tags("Error"@, element_tags("Code"@, code_name(code))));
}

/// Every document begins with the one fixed declaration: version 1.0,
/// encoding UTF-8, no standalone flag
pub proof fn law_declaration(body: Seq<Tag>)
    ensures
        document_tags(body)[0] == standard_decl(),
        standard_decl() == Tag::Decl(XmlVersion::Version10, Some("UTF-8"@), None),
        document_tags(body).drop_first() == body,
{
    assert(document_tags(body).drop_first() =~= body);
}

/// How many entries of a header list carry `name`
pub open spec fn count_header(h: Seq<(HeaderName, Seq<char>)>, name: HeaderName) -> nat
    decreases h.len(),
{
    if h.len() == 0 {
        0
    } else {
        count_header(h.drop_last(), name) + (if h.last().0 == name { 1nat } else { 0nat })
    }
}

proof fn lemma_count_header_add(a: Seq<(HeaderName, Seq<char>)>, b: Seq<(HeaderName, Seq<char>)>, name: HeaderName)
    ensures
        count_header(a + b, name) == count_header(a, name) + count_header(b, name),
    decreases b.len(),
{
    if b.len() == 0 {
        assert(a + b =~= a);
    } else {
        assert((a + b).drop_last() =~= a + b.drop_last());
        lemma_count_header_add(a, b.drop_last(), name);
    }
}

proof fn lemma_count_opt_header(n: HeaderName, v: Option<Seq<char>>, name: HeaderName)
    ensures
        count_header(opt_header(n, v), name) == if v is Some && n == name { 1nat } else { 0nat },
{
    reveal_with_fuel(count_header, 2);
    if let Some(t) = v {
        assert(seq![(n, t)].drop_last() =~= Seq::<(HeaderName, Seq<char>)>::empty());
    }
}

proof fn lemma_count_element(n: Seq<char>, t: Seq<char>, name: Seq<char>)
    ensures
        count_tag(element_tags(n, t), Tag::Open(name)) == if n == name { 1nat } else { 0nat },
{
    reveal_with_fuel(count_tag, 4);
    let s = element_tags(n, t);
    assert(s.drop_last().drop_last().drop_last() =~= Seq::<Tag>::empty());
    assert(s.drop_last().drop_last() =~= seq![Tag::Open(n)]);
    assert(s.drop_last() =~= seq![Tag::Open(n), Tag::Text(t)]);
}

proof fn lemma_count_opt_element(n: Seq<char>, t: Option<Seq<char>>, name: Seq<char>)
    ensures
        count_tag(opt_element_tags(n, t), Tag::Open(name)) == if t is Some && n == name { 1nat } else { 0nat },
{
    match t {
        Some(x) => lemma_count_element(n, x, name),
        None => {},
    }
}

/// A present `ETag` of an object's metadata gives exactly one `ETag` header,
/// with that text; an absent one gives none
pub proof fn law_head_object_etag(o: HeadObjectOutput, r: S3Result<S3Response, NoError>)
    requires
        o.renders_to(r),
        r is Ok,
    ensures
        r matches Ok(resp) && count_header(resp.headers_view(), HeaderName::ETag) == (if o.e_tag is Some { 1nat } else { 0nat }),
        o.e_tag matches Some(t) ==> (r matches Ok(resp) && resp.headers_view().contains((HeaderName::ETag, t@))),
{
    let ct = crate::xml_tree::opt_view(o.content_type);
    let cl = crate::output::opt_int_text(o.content_length);
    let lm = choose|lm: Option<Seq<char>>| crate::time::opt_last_modified(crate::xml_tree::opt_view(o.last_modified)) == Some(lm);
    let et = crate::xml_tree::opt_view(o.e_tag);
    let ex = crate::xml_tree::opt_view(o.expires);
    let n = HeaderName::ETag;
    lemma_count_header_add(opt_header(HeaderName::ContentType, ct) + opt_header(HeaderName::ContentLength, cl)
        + opt_header(HeaderName::LastModified, lm) + opt_header(n, et), opt_header(HeaderName::Expires, ex), n);
    lemma_count_header_add(opt_header(HeaderName::ContentType, ct) + opt_header(HeaderName::ContentLength, cl)
        + opt_header(HeaderName::LastModified, lm), opt_header(n, et), n);
    lemma_count_header_add(opt_header(HeaderName::ContentType, ct) + opt_header(HeaderName::ContentLength, cl),
        opt_header(HeaderName::LastModified, lm), n);
    lemma_count_header_add(opt_header(HeaderName::ContentType, ct), opt_header(HeaderName::ContentLength, cl), n);
    lemma_count_opt_header(HeaderName::ContentType, ct, n);
    lemma_count_opt_header(HeaderName::ContentLength, cl, n);
    lemma_count_opt_header(HeaderName::LastModified, lm, n);
    lemma_count_opt_header(n, et, n);
    lemma_count_opt_header(HeaderName::Expires, ex, n);
    if let Some(t) = o.e_tag {
        let h = opt_header(HeaderName::ContentType, ct) + opt_header(HeaderName::ContentLength, cl)
            + opt_header(HeaderName::LastModified, lm) + opt_header(n, et) + opt_header(HeaderName::Expires, ex);
        let k = (opt_header(HeaderName::ContentType, ct) + opt_header(HeaderName::ContentLength, cl)
            + opt_header(HeaderName::LastModified, lm)).len();
        assert(h[k as int] == (n, t@));
    }
}

/// A present field of a bucket listing's owner is written exactly once, with
/// its text; an absent one not at all
pub proof fn law_bucket_owner_fields(o: Owner)
    ensures
        count_tag(bucket_owner_tags(o), Tag::Open("DisplayName"@)) == (if o.display_name is Some { 1nat } else { 0nat }),
        count_tag(bucket_owner_tags(o), Tag::Open("ID"@)) == (if o.id is Some { 1nat } else { 0nat }),
        o.display_name matches Some(d) ==> bucket_owner_tags(o).subrange(0, 3) == element_tags("DisplayName"@, d@),
{
    reveal_strlit("DisplayName");
    reveal_strlit("ID");
    assert("DisplayName"@ != "ID"@) by {
        assert("DisplayName"@.len() != "ID"@.len());
    }
    let dn = crate::xml_tree::opt_view(o.display_name);
    let id = crate::xml_tree::opt_view(o.id);
    lemma_count_tag_add(opt_element_tags("DisplayName"@, dn), opt_element_tags("ID"@, id), Tag::Open("DisplayName"@));
    lemma_count_tag_add(opt_element_tags("DisplayName"@, dn), opt_element_tags("ID"@, id), Tag::Open("ID"@));
    lemma_count_opt_element("DisplayName"@, dn, "DisplayName"@);
    lemma_count_opt_element("ID"@, id, "DisplayName"@);
    lemma_count_opt_element("DisplayName"@, dn, "ID"@);
    lemma_count_opt_element("ID"@, id, "ID"@);
    if let Some(d) = o.display_name {
        assert(bucket_owner_tags(o).subrange(0, 3) =~= element_tags("DisplayName"@, d@));
    }
}

/// A present message of an error document is written exactly once, with its
/// text; an absent one not at all
pub proof fn law_error_message(code: S3ErrorCode, message: Option<Seq<char>>)
    ensures
        count_tag(error_tags(code, message, None, None), Tag::Open("Message"@)) == (if message is Some { 1nat } else { 0nat }),
        message matches Some(m) ==> error_tags(code, message, None, None).subrange(4, 7) == element_tags("Message"@, m),
{
    reveal_strlit("Message");
    reveal_strlit("Code");
    reveal_strlit("Error");
    reveal_strlit("Resource");
    reveal_strlit("RequestId");
    let name = "Message"@;
    assert("Code"@ != name) by { assert("Code"@.len() != name.len()); }
    assert("Error"@ != name) by { assert("Error"@.len() != name.len()); }
    assert("Resource"@ != name) by { assert("Resource"@.len() != name.len()); }
    assert("RequestId"@ != name) by { assert("RequestId"@.len() != name.len()); }
    let c = element_tags("Code"@, code_name(code));
    let m = opt_element_tags(name, message);
    let e = Seq::<Tag>::empty();
    assert(opt_element_tags("Resource"@, None) == e);
    assert(opt_element_tags("RequestId"@, None) == e);
    assert(c + m + e + e =~= c + m);
    let inner = c + m;
    lemma_count_tag_add(c, m, Tag::Open(name));
    lemma_count_element("Code"@, code_name(code), name);
    lemma_count_opt_element(name, message, name);
    law_opt_stack("Error"@, Some(inner));
    reveal_with_fuel(count_tag, 2);
    lemma_count_tag_add(seq![Tag::Open("Error"@)] + inner, seq![Tag::Close("Error"@)], Tag::Open(name));
    lemma_count_tag_add(seq![Tag::Open("Error"@)], inner, Tag::Open(name));
    assert(seq![Tag::Open("Error"@)].drop_last() =~= e);
    assert(seq![Tag::Close("Error"@)].drop_last() =~= e);
    if let Some(mm) = message {
        assert(error_tags(code, message, None, None).subrange(4, 7) =~= element_tags(name, mm));
    }
}

} // verus!
