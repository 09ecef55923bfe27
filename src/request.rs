//! Extraction of typed values from an incoming request
use vstd::prelude::*;
use vstd::string::*;

verus! {

/// Relies on `hyper::Body::empty`: a body with no data.
pub assume_specification[ hyper::Body::empty ]() -> hyper::Body;

/// The parts of a request that handlers read
pub struct S3Request {
    /// header names, with the raw bytes of their values
    pub headers: Vec<(String, Vec<u8>)>,
    pub query: Option<String>,
    pub path: String,
    /// `None` once the body has been taken
    pub body: Option<hyper::Body>,
}

/// A header value that is not visible ASCII text
#[derive(Clone, Copy, Debug, PartialEq, Eq, Structural)]
pub struct NotValidText;

/// A byte that a header read as text may hold: visible ASCII or a tab
pub open spec fn visible_ascii(b: u8) -> bool {
    (32 <= b && b < 127) || b == 9
}

pub open spec fn ascii_chars(b: Seq<u8>) -> Seq<char> {
    Seq::new(b.len(), |i: int| b[i] as char)
}

/// A character with ASCII upper case folded to lower case
pub open spec fn ascii_lower(c: char) -> u32 {
    if 65 <= c as u32 && c as u32 <= 90 {
        (c as u32 + 32) as u32
    } else {
        c as u32
    }
}

/// Header names are compared without regard to ASCII case
pub open spec fn same_name(a: Seq<char>, b: Seq<char>) -> bool {
    a.len() == b.len() && forall|i: int| 0 <= i < a.len() ==> ascii_lower(#[trigger] a[i]) == ascii_lower(b[i])
}

/// Index of the first header named `name`, in any ASCII case
pub open spec fn first_header(h: Seq<(String, Vec<u8>)>, name: Seq<char>) -> Option<int> {
    if exists|i: int| 0 <= i < h.len() && same_name((#[trigger] h[i]).0@, name) {
        Some(choose|i: int| 0 <= i < h.len() && same_name(h[i].0@, name) && forall|j: int| 0 <= j < i ==> !same_name((#[trigger] h[j]).0@, name))
    } else {
        None
    }
}

proof fn lemma_first_header(h: Seq<(String, Vec<u8>)>, name: Seq<char>, i: int)
    requires
        0 <= i < h.len(),
        same_name(h[i].0@, name),
        forall|j: int| 0 <= j < i ==> !same_name((#[trigger] h[j]).0@, name),
    ensures
        first_header(h, name) == Some(i),
{
    assert(same_name(h[i].0@, name));
    let c = choose|c: int| 0 <= c < h.len() && same_name(h[c].0@, name) && forall|j: int| 0 <= j < c ==> !same_name((#[trigger] h[j]).0@, name);
    assert(0 <= c < h.len() && same_name(h[c].0@, name) && forall|j: int| 0 <= j < c ==> !same_name((#[trigger] h[j]).0@, name));
    if c < i {
        assert(!same_name(h[c].0@, name));
    } else if c > i {
        assert(!same_name(h[i].0@, name));
    }
}

/// The value of the first header whose name matches `name` in any ASCII
/// case, as text: absent, not text, or its characters
pub open spec fn header_text(h: Seq<(String, Vec<u8>)>, name: Seq<char>) -> Result<Option<Seq<char>>, NotValidText> {
    match first_header(h, name) {
        None => Ok(None),
        Some(i) => if forall|k: int| 0 <= k < h[i].1@.len() ==> visible_ascii(#[trigger] h[i].1@[k]) {
            Ok(Some(ascii_chars(h[i].1@)))
        } else {
            Err(NotValidText)
        },
    }
}

/// Relies on `String::from_utf8`: ASCII bytes are valid UTF-8, one
/// character each.
#[verifier::external_body]
fn ascii_string(b: Vec<u8>) -> (r: String)
    requires
        forall|k: int| 0 <= k < b@.len() ==> #[trigger] b@[k] < 128,
    ensures
        r@ == ascii_chars(b@),
{
    match String::from_utf8(b) {
        Ok(s) => s,
        Err(_) => String::new(),
    }
}

fn lower_code(c: char) -> (r: u32)
    ensures
        r == ascii_lower(c),
{
    let x = c as u32;
    if 65 <= x && x <= 90 {
        x + 32
    } else {
        x
    }
}

fn same_text(a: &str, b: &str) -> (r: bool)
    ensures
        r == same_name(a@, b@),
{
    let n = a.unicode_len();
    if n != b.unicode_len() {
        return false;
    }
    let mut i: usize = 0;
    while i < n
        invariant
            n == a@.len() == b@.len(),
            i <= n,
            forall|k: int| 0 <= k < i ==> ascii_lower(#[trigger] a@[k]) == ascii_lower(b@[k]),
        decreases n - i,
    {
        if lower_code(a.get_char(i)) != lower_code(b.get_char(i)) {
            return false;
        }
        i = i + 1;
    }
    true
}

/// Outcome of reading and parsing a header into a field
pub open spec fn assigned<T, E>(old_v: Option<T>, new_v: Option<T>, parsed: Option<Result<T, E>>, r: Result<(), E>) -> bool {
    match parsed {
        None => new_v == old_v && r is Ok,
        Some(Ok(v)) => new_v == Some(v) && r is Ok,
        Some(Err(e)) => new_v == old_v && r == Err::<(), E>(e),
    }
}

/// Assigns a parsed header value: an absent header leaves the target as it
/// is, a value that did not parse is reported without touching it
pub fn assign_parsed<T, E>(opt: &mut Option<T>, parsed: Option<Result<T, E>>) -> (r: Result<(), E>)
    ensures
        assigned(*old(opt), *final(opt), parsed, r),
{
    match parsed {
        None => Ok(()),
        Some(Ok(v)) => {
            *opt = Some(v);
            Ok(())
        },
        Some(Err(e)) => Err(e),
    }
}

/// Extraction of typed values from a request
pub trait RequestExt: Sized {
    /// The value of header `name` as text
    spec fn header_text_of(&self, name: Seq<char>) -> Result<Option<Seq<char>>, NotValidText>;

    spec fn body_of(&self) -> Option<hyper::Body>;

    /// Everything but the body
    spec fn others_of(&self) -> (Seq<(String, Vec<u8>)>, Option<String>, String);

    /// Gets a header value as text: absent, or an error where it is not text
    fn get_header_str(&self, name: &str) -> (r: Result<Option<String>, NotValidText>)
        ensures
            match self.header_text_of(name@) {
                Ok(None) => r matches Ok(None),
                Ok(Some(t)) => r matches Ok(Some(s)) && s@ == t,
                Err(e) => r == Err::<Option<String>, NotValidText>(e),
            },
    ;

    /// Takes the body, leaving none in its place; a second call gets an
    /// empty body
    fn take_body(&mut self) -> (r: hyper::Body)
        ensures
            old(self).body_of() matches Some(b) ==> r == b,
            final(self).body_of() is None,
            final(self).others_of() == old(self).others_of(),
    ;

    /// The query string, if the request has one
    spec fn query_of(&self) -> Option<Seq<char>>;

    /// Deserializes the query string with `de`: absent where there is none
    fn extract_query<Q, E, F: Fn(&str) -> Result<Q, E>>(&self, de: F) -> (r: Result<Option<Q>, E>)
        requires
            forall|s: &str| #[trigger] de.requires((s,)),
        ensures
            self.query_of() is None ==> r matches Ok(None),
            self.query_of() matches Some(q) ==> exists|s: &str, p: Result<Q, E>|
                s@ == q && #[trigger] de.ensures((s,), p) && r == match p {
                    Ok(v) => Ok::<Option<Q>, E>(Some(v)),
                    Err(e) => Err(e),
                },
    ;

    /// Reads a header and parses it with `parse` into `opt`. The outer error:
    /// the header is not text; the inner one: it did not parse. An absent
    /// header leaves `opt` as it was.
    fn assign_opt_header<T, E, F: Fn(&str) -> Result<T, E>>(&self, name: &str, opt: &mut Option<T>, parse: F) -> (r:
        Result<Result<(), E>, NotValidText>)
        requires
            forall|s: &str| #[trigger] parse.requires((s,)),
        ensures
            self.header_text_of(name@) is Err ==> (r is Err && *final(opt) == *old(opt)),
            self.header_text_of(name@) matches Ok(None) ==> (r matches Ok(Ok(())) && *final(opt) == *old(opt)),
            self.header_text_of(name@) matches Ok(Some(t)) ==> (r matches Ok(inner) && exists|s: &str, p: Result<T, E>|
                s@ == t && #[trigger] parse.ensures((s,), p) && assigned(*old(opt), *final(opt), Some(p), inner)),
    ;
}

impl RequestExt for S3Request {
    open spec fn header_text_of(&self, name: Seq<char>) -> Result<Option<Seq<char>>, NotValidText> {
        header_text(self.headers@, name)
    }

    open spec fn query_of(&self) -> Option<Seq<char>> {
        crate::xml_tree::opt_view(self.query)
    }

    open spec fn body_of(&self) -> Option<hyper::Body> {
        self.body
    }

    open spec fn others_of(&self) -> (Seq<(String, Vec<u8>)>, Option<String>, String) {
        (self.headers@, self.query, self.path)
    }

    fn get_header_str(&self, name: &str) -> (r: Result<Option<String>, NotValidText>) {
        let n = self.headers.len();
        let mut i: usize = 0;
        while i < n
            invariant
                n == self.headers@.len(),
                i <= n,
                forall|j: int| 0 <= j < i ==> !same_name((#[trigger] self.headers@[j]).0@, name@),
            decreases n - i,
        {
            if same_text(self.headers[i].0.as_str(), name) {
                let v = &self.headers[i].1;
                let m = v.len();
                let mut k: usize = 0;
                while k < m
                    invariant
                        m == v@.len(),
                        v@ == self.headers@[i as int].1@,
                        i < n,
                        n == self.headers@.len(),
                        same_name(self.headers@[i as int].0@, name@),
                        forall|j: int| 0 <= j < i ==> !same_name((#[trigger] self.headers@[j]).0@, name@),
                        k <= m,
                        forall|q: int| 0 <= q < k ==> visible_ascii(#[trigger] v@[q]),
                    decreases m - k,
                {
                    let b = v[k];
                    if !((32 <= b && b < 127) || b == 9) {
                        proof {
                            lemma_first_header(self.headers@, name@, i as int);
                        }
                        return Err(NotValidText);
                    }
                    k = k + 1;
                }
                proof {
                    lemma_first_header(self.headers@, name@, i as int);
                    assert(ascii_chars(v@) == ascii_chars(self.headers@[i as int].1@));
                }
                return Ok(Some(ascii_string(v.clone())));
            }
            i = i + 1;
        }
        Ok(None)
    }

    fn take_body(&mut self) -> (r: hyper::Body) {
        let mut b: Option<hyper::Body> = None;
        core::mem::swap(&mut self.body, &mut b);
        match b {
            Some(body) => body,
            None => hyper::Body::empty(),
        }
    }

    fn extract_query<Q, E, F: Fn(&str) -> Result<Q, E>>(&self, de: F) -> (r: Result<Option<Q>, E>) {
        match &self.query {
            None => Ok(None),
            Some(q) => match de(q.as_str()) {
                Ok(v) => Ok(Some(v)),
                Err(e) => Err(e),
            },
        }
    }

    fn assign_opt_header<T, E, F: Fn(&str) -> Result<T, E>>(&self, name: &str, opt: &mut Option<T>, parse: F) -> (r:
        Result<Result<(), E>, NotValidText>) {
        let text = match self.get_header_str(name) {
            Ok(t) => t,
            Err(e) => return Err(e),
        };
        match text {
            Some(s) => {
                let p = parse(s.as_str());
                Ok(assign_parsed(opt, Some(p)))
            },
            None => Ok(assign_parsed(opt, None)),
        }
    }
}

} // verus!
