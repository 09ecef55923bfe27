use s3_server::request::{NotValidText, RequestExt, S3Request};
use s3_server::time::rfc3339_to_last_modified;
use s3_server::xml_tree::{XmlEvent, XmlFragment};

fn req(headers: Vec<(&str, &[u8])>) -> S3Request {
    S3Request {
        headers: headers.into_iter().map(|(n, v)| (n.to_string(), v.to_vec())).collect(),
        query: None,
        path: "/".to_string(),
        body: Some(hyper::Body::from("payload")),
    }
}

fn parse_u32(s: &str) -> Result<u32, std::num::ParseIntError> {
    s.parse()
}

#[test]
fn header_text_present_absent_invalid() {
    let r = req(vec![("x-a", b"hello"), ("x-b", b"\xff")]);
    assert_eq!(r.get_header_str("x-a"), Ok(Some("hello".to_string())));
    assert_eq!(r.get_header_str("x-c"), Ok(None));
    assert_eq!(r.get_header_str("x-b"), Err(NotValidText));
}

#[test]
fn header_names_match_in_any_case() {
    let r = req(vec![("content-type", b"text/plain")]);
    assert_eq!(r.get_header_str("Content-Type"), Ok(Some("text/plain".to_string())));
    assert_eq!(r.get_header_str("CONTENT-TYPE"), Ok(Some("text/plain".to_string())));
    assert_eq!(r.get_header_str("content-typ"), Ok(None));
}

#[test]
fn assign_absent_header_leaves_target() {
    let r = req(vec![]);
    let mut v: Option<u32> = Some(7);
    let res = r.assign_opt_header("content-length", &mut v, parse_u32);
    assert!(matches!(res, Ok(Ok(()))));
    assert_eq!(v, Some(7));
}

#[test]
fn assign_unparsable_header_reports_inner_failure() {
    let r = req(vec![("content-length", b"abc")]);
    let mut v: Option<u32> = None;
    let res = r.assign_opt_header("content-length", &mut v, parse_u32);
    assert!(matches!(res, Ok(Err(_))));
    assert_eq!(v, None);
}

#[test]
fn assign_parsable_header_sets_target() {
    let r = req(vec![("content-length", b"42")]);
    let mut v: Option<u32> = Some(1);
    let res = r.assign_opt_header("content-length", &mut v, parse_u32);
    assert!(matches!(res, Ok(Ok(()))));
    assert_eq!(v, Some(42));
}

#[test]
fn assign_non_text_header_is_outer_failure() {
    let r = req(vec![("content-length", b"4\x012")]);
    let mut v: Option<u32> = Some(3);
    let res = r.assign_opt_header("content-length", &mut v, parse_u32);
    assert!(matches!(res, Err(NotValidText)));
    assert_eq!(v, Some(3));
}

#[test]
fn take_body_twice() {
    let mut r = req(vec![]);
    let _first = r.take_body();
    assert!(r.body.is_none());
    let _second = r.take_body();
    assert!(r.body.is_none());
    assert_eq!(r.path, "/");
}

#[test]
fn timestamps() {
    assert_eq!(rfc3339_to_last_modified("2020-01-01T00:00:00Z"), Some("Wed, 01 Jan 2020 00:00:00 GMT".to_string()));
    assert_eq!(rfc3339_to_last_modified("2000-02-29T23:59:59.123Z"), Some("Tue, 29 Feb 2000 23:59:59 GMT".to_string()));
    assert_eq!(rfc3339_to_last_modified("1970-01-01T00:00:00Z"), Some("Thu, 01 Jan 1970 00:00:00 GMT".to_string()));
    assert_eq!(rfc3339_to_last_modified("2021-02-29T00:00:00Z"), None);
    assert_eq!(rfc3339_to_last_modified("2021-01-01 00:00:00"), None);
    assert_eq!(rfc3339_to_last_modified("2021-01-01T00:00:00.Z"), None);
}

fn names(f: &XmlFragment) -> Vec<String> {
    f.events
        .iter()
        .map(|e| match e {
            XmlEvent::Declaration { .. } => "?".to_string(),
            XmlEvent::Start(n) => format!("<{}>", n),
            XmlEvent::Text(t) => t.clone(),
            XmlEvent::End(n) => format!("</{}>", n),
        })
        .collect()
}

#[test]
fn opt_stack_absent_and_present() {
    let mut w = XmlFragment::new();
    w.opt_stack("Owner", None);
    assert!(w.events.is_empty());
    let mut inner = XmlFragment::new();
    inner.element("ID", "1".to_string());
    w.opt_stack("Owner", Some(inner));
    assert_eq!(names(&w), vec!["<Owner>", "<ID>", "1", "</ID>", "</Owner>"]);
}

#[test]
fn iterate_keeps_order_and_count() {
    let mut w = XmlFragment::new();
    w.iter_element(vec![]);
    assert!(w.events.is_empty());
    let blocks: Vec<XmlFragment> = ["a", "b", "c"]
        .iter()
        .map(|t| {
            let mut b = XmlFragment::new();
            b.element("Prefix", t.to_string());
            b
        })
        .collect();
    w.iter_element(blocks);
    assert_eq!(names(&w).iter().filter(|n| *n == "<Prefix>").count(), 3);
    assert_eq!(names(&w)[1], "a");
    assert_eq!(names(&w)[4], "b");
    assert_eq!(names(&w)[7], "c");
}

#[test]
fn opt_element_empty_text_is_written() {
    let mut w = XmlFragment::new();
    w.opt_element("Marker", Some(String::new()));
    w.opt_element("NextMarker", None);
    assert_eq!(names(&w), vec!["<Marker>", "", "</Marker>"]);
}

fn parse_pair(s: &str) -> Result<(String, String), String> {
    match s.split_once('=') {
        Some((k, v)) => Ok((k.to_string(), v.to_string())),
        None => Err(s.to_string()),
    }
}

#[test]
fn query_absent_present_and_failing() {
    let mut r = req(vec![]);
    assert_eq!(r.extract_query(parse_pair), Ok(None));
    r.query = Some("prefix=a".to_string());
    assert_eq!(r.extract_query(parse_pair), Ok(Some(("prefix".to_string(), "a".to_string()))));
    r.query = Some("junk".to_string());
    assert_eq!(r.extract_query(parse_pair), Err("junk".to_string()));
}

#[test]
fn query_through_urlencoded() {
    let mut r = req(vec![]);
    r.query = Some("prefix=a%2Fb&max-keys=10".to_string());
    let q = r.extract_query(|s: &str| serde_urlencoded::from_str::<Vec<(String, String)>>(s)).unwrap().unwrap();
    assert_eq!(q, vec![("prefix".to_string(), "a/b".to_string()), ("max-keys".to_string(), "10".to_string())]);
}
