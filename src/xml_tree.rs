//! XML tree writer: builds the event sequence of a body and serialises it
use vstd::prelude::*;
use xml::common::XmlVersion as XV;
use xml::writer::XmlEvent as W;

verus! {

/// Version named in an XML declaration
#[derive(Clone, Copy, Debug, PartialEq, Eq, Structural)]
pub enum XmlVersion {
    Version10,
    Version11,
}

/// One event of an XML body, as the writer records it
pub enum XmlEvent {
    /// `<?xml version=".." encoding=".." standalone=".."?>`
    Declaration { version: XmlVersion, encoding: Option<String>, standalone: Option<bool> },
    Start(String),
    Text(String),
    End(String),
}

/// Mathematical model of an [`XmlEvent`]
pub enum Tag {
    Decl(XmlVersion, Option<Seq<char>>, Option<bool>),
    Open(Seq<char>),
    Text(Seq<char>),
    Close(Seq<char>),
}

impl View for XmlEvent {
    type V = Tag;

    open spec fn view(&self) -> Tag {
        match self {
            XmlEvent::Declaration { version, encoding, standalone } => Tag::Decl(
                *version,
                opt_view(*encoding),
                *standalone,
            ),
            XmlEvent::Start(n) => Tag::Open(n@),
            XmlEvent::Text(t) => Tag::Text(t@),
            XmlEvent::End(n) => Tag::Close(n@),
        }
    }
}

pub open spec fn tags_of(evs: Seq<XmlEvent>) -> Seq<Tag> {
    Seq::new(evs.len(), |i: int| evs[i]@)
}

/// `<name>text</name>`
pub open spec fn element_tags(name: Seq<char>, text: Seq<char>) -> Seq<Tag> {
    seq![Tag::Open(name), Tag::Text(text), Tag::Close(name)]
}

/// An element that is written only when its text is present
pub open spec fn opt_element_tags(name: Seq<char>, text: Option<Seq<char>>) -> Seq<Tag> {
    match text {
        Some(t) => element_tags(name, t),
        None => Seq::empty(),
    }
}

/// `<name>inner</name>`
pub open spec fn stack_tags(name: Seq<char>, inner: Seq<Tag>) -> Seq<Tag> {
    seq![Tag::Open(name)] + inner + seq![Tag::Close(name)]
}

/// A wrapping element that is written, with its content, only when present
pub open spec fn opt_stack_tags(name: Seq<char>, inner: Option<Seq<Tag>>) -> Seq<Tag> {
    match inner {
        Some(i) => stack_tags(name, i),
        None => Seq::empty(),
    }
}

/// Sibling blocks, one after another in order
pub open spec fn concat_blocks(blocks: Seq<Seq<Tag>>) -> Seq<Tag>
    decreases blocks.len(),
{
    if blocks.len() == 0 {
        Seq::empty()
    } else {
        concat_blocks(blocks.drop_last()) + blocks.last()
    }
}

/// The declaration of every document: version 1.0, UTF-8, no standalone flag
pub open spec fn standard_decl() -> Tag {
    Tag::Decl(XmlVersion::Version10, Some("UTF-8"@), None)
}

/// A whole document: the declaration, then the body
pub open spec fn document_tags(body: Seq<Tag>) -> Seq<Tag> {
    seq![standard_decl()] + body
}

/// The open elements after one more event, or `None` where it does not fit
pub open spec fn step(k: Option<Seq<Seq<char>>>, t: Tag) -> Option<Seq<Seq<char>>> {
    match k {
        None => None,
        Some(st) => match t {
            Tag::Open(n) => Some(st.push(n)),
            Tag::Text(_) => Some(st),
            Tag::Close(n) => if st.len() > 0 && st.last() == n {
                Some(st.drop_last())
            } else {
                None
            },
            Tag::Decl(..) => None,
        },
    }
}

/// The open elements after the events `s`, starting from `st`
pub open spec fn run(s: Seq<Tag>, st: Seq<Seq<char>>) -> Option<Seq<Seq<char>>>
    decreases s.len(),
{
    if s.len() == 0 {
        Some(st)
    } else {
        step(run(s.drop_last(), st), s.last())
    }
}

/// Every end tag closes the latest open element of the same name, all are
/// closed at the end, and no declaration occurs
pub open spec fn balanced(s: Seq<Tag>) -> bool {
    run(s, Seq::empty()) == Some(Seq::<Seq<char>>::empty())
}

/// A declaration first, then a balanced body
pub open spec fn well_formed_doc(d: Seq<Tag>) -> bool {
    d.len() > 0 && d[0] is Decl && balanced(d.drop_first())
}

pub proof fn lemma_run_add(a: Seq<Tag>, b: Seq<Tag>, st: Seq<Seq<char>>)
    ensures
        run(a + b, st) == match run(a, st) {
            None => None,
            Some(k) => run(b, k),
        },
    decreases b.len(),
{
    if b.len() == 0 {
        assert(a + b =~= a);
    } else {
        assert((a + b).drop_last() =~= a + b.drop_last());
        lemma_run_add(a, b.drop_last(), st);
    }
}

pub proof fn lemma_run_shift(s: Seq<Tag>, st: Seq<Seq<char>>)
    ensures
        run(s, Seq::empty()) matches Some(k) ==> run(s, st) == Some(st + k),
    decreases s.len(),
{
    if s.len() == 0 {
        assert(st + Seq::<Seq<char>>::empty() =~= st);
    } else {
        lemma_run_shift(s.drop_last(), st);
        if let Some(k0) = run(s.drop_last(), Seq::empty()) {
            match s.last() {
                Tag::Open(n) => {
                    assert((st + k0).push(n) =~= st + k0.push(n));
                },
                Tag::Close(n) => {
                    if k0.len() > 0 && k0.last() == n {
                        assert((st + k0).drop_last() =~= st + k0.drop_last());
                    }
                },
                _ => {},
            }
        }
    }
}

pub proof fn lemma_balanced_add(a: Seq<Tag>, b: Seq<Tag>)
    requires
        balanced(a),
        balanced(b),
    ensures
        balanced(a + b),
{
    lemma_run_add(a, b, Seq::empty());
}

pub proof fn lemma_balanced_stack(name: Seq<char>, inner: Seq<Tag>)
    requires
        balanced(inner),
    ensures
        balanced(stack_tags(name, inner)),
{
    let e = Seq::<Seq<char>>::empty();
    let o = seq![Tag::Open(name)];
    let c = seq![Tag::Close(name)];
    reveal_with_fuel(run, 2);
    assert(o.drop_last() =~= Seq::<Tag>::empty());
    assert(c.drop_last() =~= Seq::<Tag>::empty());
    assert(e.push(name) =~= seq![name]);
    assert(run(o, e) == Some(seq![name]));
    lemma_run_add(o + inner, c, e);
    lemma_run_add(o, inner, e);
    lemma_run_shift(inner, seq![name]);
    assert(seq![name] + e =~= seq![name]);
    assert(seq![name].drop_last() =~= e);
    assert(run(c, seq![name]) == Some(e));
}

pub proof fn lemma_balanced_element(name: Seq<char>, text: Seq<char>)
    ensures
        balanced(element_tags(name, text)),
{
    let t = seq![Tag::Text(text)];
    reveal_with_fuel(run, 2);
    assert(t.drop_last() =~= Seq::<Tag>::empty());
    lemma_balanced_stack(name, t);
    assert(stack_tags(name, t) =~= element_tags(name, text));
}

pub proof fn lemma_balanced_opt_element(name: Seq<char>, text: Option<Seq<char>>)
    ensures
        balanced(opt_element_tags(name, text)),
{
    if let Some(t) = text {
        lemma_balanced_element(name, t);
    }
}

pub proof fn lemma_balanced_opt_stack(name: Seq<char>, inner: Option<Seq<Tag>>)
    requires
        inner matches Some(i) ==> balanced(i),
    ensures
        balanced(opt_stack_tags(name, inner)),
{
    if let Some(i) = inner {
        lemma_balanced_stack(name, i);
    }
}

pub proof fn lemma_balanced_concat(blocks: Seq<Seq<Tag>>)
    requires
        forall|i: int| 0 <= i < blocks.len() ==> balanced(#[trigger] blocks[i]),
    ensures
        balanced(concat_blocks(blocks)),
    decreases blocks.len(),
{
    if blocks.len() > 0 {
        lemma_balanced_concat(blocks.drop_last());
        lemma_balanced_add(concat_blocks(blocks.drop_last()), blocks.last());
    }
}

pub proof fn lemma_document_well_formed(body: Seq<Tag>)
    requires
        balanced(body),
    ensures
        well_formed_doc(document_tags(body)),
{
    assert(document_tags(body).drop_first() =~= body);
}

/// Optional text as its model
pub open spec fn opt_view(s: Option<String>) -> Option<Seq<char>> {
    match s {
        Some(t) => Some(t@),
        None => None,
    }
}

/// How many times `t` occurs in `s`
pub open spec fn count_tag(s: Seq<Tag>, t: Tag) -> nat
    decreases s.len(),
{
    if s.len() == 0 {
        0
    } else {
        count_tag(s.drop_last(), t) + (if s.last() == t { 1nat } else { 0nat })
    }
}

pub proof fn lemma_count_tag_add(a: Seq<Tag>, b: Seq<Tag>, t: Tag)
    ensures
        count_tag(a + b, t) == count_tag(a, t) + count_tag(b, t),
    decreases b.len(),
{
    if b.len() == 0 {
        assert(a + b =~= a);
    } else {
        assert((a + b).drop_last() =~= a + b.drop_last());
        lemma_count_tag_add(a, b.drop_last(), t);
    }
}

pub proof fn lemma_tags_of_add(a: Seq<XmlEvent>, b: Seq<XmlEvent>)
    ensures
        tags_of(a + b) == tags_of(a) + tags_of(b),
{
    assert(tags_of(a + b) =~= tags_of(a) + tags_of(b));
}

/// A piece of XML under construction
pub struct XmlFragment {
    pub events: Vec<XmlEvent>,
}

impl View for XmlFragment {
    type V = Seq<Tag>;

    open spec fn view(&self) -> Seq<Tag> {
        tags_of(self.events@)
    }
}

impl XmlFragment {
    pub fn new() -> (r: XmlFragment)
        ensures
            r@ == Seq::<Tag>::empty(),
    {
        let r = XmlFragment { events: Vec::new() };
        assert(r@ =~= Seq::<Tag>::empty());
        r
    }

    fn push(&mut self, e: XmlEvent)
        ensures
            final(self)@ == old(self)@.push(e@),
    {
        self.events.push(e);
        assert(final(self)@ =~= old(self)@.push(e@));
    }

    /// Appends every event of `other`
    pub fn append(&mut self, other: XmlFragment)
        ensures
            final(self)@ == old(self)@ + other@,
    {
        let mut o = other;
        self.events.append(&mut o.events);
        proof {
            lemma_tags_of_add(old(self).events@, other.events@);
        }
    }

    /// Writes `<name>text</name>`
    pub fn element(&mut self, name: &str, text: String)
        ensures
            final(self)@ == old(self)@ + element_tags(name@, text@),
    {
        self.push(XmlEvent::Start(name.to_owned()));
        self.push(XmlEvent::Text(text));
        self.push(XmlEvent::End(name.to_owned()));
        assert(final(self)@ =~= old(self)@ + element_tags(name@, text@));
    }

    /// Writes `<name>text</name>` if the text is present, nothing otherwise
    pub fn opt_element(&mut self, name: &str, text: Option<String>)
        ensures
            final(self)@ == old(self)@ + opt_element_tags(name@, opt_view(text)),
    {
        match text {
            Some(t) => self.element(name, t),
            None => {
                assert(old(self)@ + Seq::<Tag>::empty() =~= old(self)@);
            },
        }
    }

    /// Writes `<name>`, the content of `inner`, then `</name>`
    pub fn stack(&mut self, name: &str, inner: XmlFragment)
        ensures
            final(self)@ == old(self)@ + stack_tags(name@, inner@),
    {
        self.push(XmlEvent::Start(name.to_owned()));
        self.append(inner);
        self.push(XmlEvent::End(name.to_owned()));
        assert(final(self)@ =~= old(self)@ + stack_tags(name@, inner@));
    }

    /// Writes the wrapping element with its content only if it is present
    pub fn opt_stack(&mut self, name: &str, inner: Option<XmlFragment>)
        ensures
            final(self)@ == old(self)@ + opt_stack_tags(
                name@,
                match inner {
                    Some(i) => Some(i@),
                    None => None,
                },
            ),
    {
        match inner {
            Some(i) => self.stack(name, i),
            None => {
                assert(old(self)@ + Seq::<Tag>::empty() =~= old(self)@);
            },
        }
    }

    /// Writes one sibling block per item, in order
    pub fn iter_element(&mut self, blocks: Vec<XmlFragment>)
        ensures
            final(self)@ == old(self)@ + concat_blocks(blocks@.map_values(|b: XmlFragment| b@)),
    {
        let ghost views = blocks@.map_values(|b: XmlFragment| b@);
        let ghost start = self@;
        let n: usize = blocks.len();
        let mut rest = blocks;
        assert(start + concat_blocks(views.take(0)) =~= start);
        let mut i: usize = 0;
        while rest.len() > 0
            invariant
                i + rest@.len() == views.len(),
                views.len() == n,
                forall|k: int| 0 <= k < rest@.len() ==> #[trigger] rest@[k]@ == views[i + k],
                self@ == start + concat_blocks(views.take(i as int)),
            decreases rest@.len(),
        {
            let ghost prev = rest@;
            let b = rest.remove(0);
            proof {
                assert(views.take(i + 1).drop_last() =~= views.take(i as int));
                assert(b@ == views[i as int]);
            }
            self.append(b);
            i = i + 1;
            assert forall|k: int| 0 <= k < rest@.len() implies #[trigger] rest@[k]@ == views[i + k] by {
                assert(rest@[k] == prev[k + 1]);
            }
        }
        assert(views.take(i as int) =~= views);
    }
}

/// Wraps a body as a whole document, the declaration first
pub fn document(body: XmlFragment) -> (r: XmlFragment)
    ensures
        r@ == document_tags(body@),
{
    let mut d = XmlFragment::new();
    d.push(XmlEvent::Declaration {
        version: XmlVersion::Version10,
        encoding: Some("UTF-8".to_owned()),
        standalone: None,
    });
    d.append(body);
    d
}

/// The bytes that xml-rs's `EventWriter` writes for a sequence of events
pub uninterp spec fn xml_bytes(tags: Seq<Tag>) -> Seq<u8>;

/// xml-rs's writer error, carried opaque
#[verifier::external_type_specification]
#[verifier::external_body]
pub struct ExEmitterError(xml::writer::Error);

/// Relies on xml-rs's `EventWriter::write`: each event is written in order to
/// an in-memory buffer (with `<`, `&` and the like escaped in text); the bytes
/// depend on the events alone. The emitter fails only on a second document
/// start, an end tag that does not match the open element, or an I/O error,
/// which a `Vec<u8>` never raises.
#[verifier::external_body]
pub(crate) fn write_xml(doc: &XmlFragment, cap: usize) -> (r: Result<Vec<u8>, xml::writer::Error>)
    ensures
        r matches Ok(b) ==> b@ == xml_bytes(doc@),
        well_formed_doc(doc@) ==> r is Ok,
{
    let mut w = xml::writer::EventWriter::new(Vec::with_capacity(cap));
    for e in doc.events.iter() {
        match e {
            XmlEvent::Declaration { version, encoding, standalone } => {
                let version = match version { XmlVersion::Version10 => XV::Version10, XmlVersion::Version11 => XV::Version11 };
                w.write(W::StartDocument { version, encoding: encoding.as_deref(), standalone: *standalone })?
            },
            XmlEvent::Start(n) => w.write(W::start_element(n.as_str()))?,
            XmlEvent::Text(t) => w.write(W::characters(t.as_str()))?,
            XmlEvent::End(n) => w.write(W::end_element().name(n.as_str()))?,
        }
    }
    Ok(w.into_inner())
}

} // verus!
