//! The XML events that the converter reads and writes, and their models.
use vstd::prelude::*;
use vstd::string::*;
use vstd::utf8::*;
use crate::names::{local_name, split_name, tag_name, build_tag};
use crate::text::{escape, utf8_or_empty, utf8_or_empty_vec, xml_escape};

verus! {

/// An attribute of a start tag: its key and its raw (still escaped) value.
pub struct Attribute {
    pub key: Vec<u8>,
    pub value: Vec<u8>,
}

/// A start or empty-element tag: its qualified name and its attributes in order.
pub struct Tag {
    pub name: Vec<u8>,
    pub attributes: Vec<Attribute>,
}

/// One event of an XML document, with raw (escaped) contents.
pub enum XmlEvent {
    Start(Tag),
    Empty(Tag),
    End(Vec<u8>),
    Text(Vec<u8>),
    CData(Vec<u8>),
    Comment(Vec<u8>),
    Decl(Vec<u8>),
    PI(Vec<u8>),
    DocType(Vec<u8>),
}

pub struct AttrModel {
    pub key: Seq<u8>,
    pub value: Seq<u8>,
}

pub struct TagModel {
    pub name: Seq<u8>,
    pub attributes: Seq<AttrModel>,
}

pub enum EventModel {
    Start(TagModel),
    Empty(TagModel),
    End(Seq<u8>),
    Text(Seq<u8>),
    CData(Seq<u8>),
    Comment(Seq<u8>),
    Decl(Seq<u8>),
    PI(Seq<u8>),
    DocType(Seq<u8>),
}

impl View for Attribute {
    type V = AttrModel;

    open spec fn view(&self) -> AttrModel {
        AttrModel { key: self.key@, value: self.value@ }
    }
}

impl DeepView for Attribute {
    type V = AttrModel;

    open spec fn deep_view(&self) -> AttrModel {
        self@
    }
}

impl View for Tag {
    type V = TagModel;

    open spec fn view(&self) -> TagModel {
        TagModel { name: self.name@, attributes: self.attributes.deep_view() }
    }
}

impl DeepView for Tag {
    type V = TagModel;

    open spec fn deep_view(&self) -> TagModel {
        self@
    }
}

impl View for XmlEvent {
    type V = EventModel;

    open spec fn view(&self) -> EventModel {
        match self {
            XmlEvent::Start(t) => EventModel::Start(t@),
            XmlEvent::Empty(t) => EventModel::Empty(t@),
            XmlEvent::End(n) => EventModel::End(n@),
            XmlEvent::Text(b) => EventModel::Text(b@),
            XmlEvent::CData(b) => EventModel::CData(b@),
            XmlEvent::Comment(b) => EventModel::Comment(b@),
            XmlEvent::Decl(b) => EventModel::Decl(b@),
            XmlEvent::PI(b) => EventModel::PI(b@),
            XmlEvent::DocType(b) => EventModel::DocType(b@),
        }
    }
}

impl DeepView for XmlEvent {
    type V = EventModel;

    open spec fn deep_view(&self) -> EventModel {
        self@
    }
}

// ---------------------------------------------------------------------------
// Copies and literals

pub fn copy_bytes(b: &[u8]) -> (r: Vec<u8>)
    ensures
        r@ == b@,
{
    vstd::slice::slice_to_vec(b)
}

/// The UTF-8 bytes of a string literal.
pub fn lit(s: &str) -> (r: Vec<u8>)
    ensures
        r@ == s.spec_bytes(),
{
    vstd::slice::slice_to_vec(s.as_bytes())
}

pub fn bytes_eq(a: &[u8], b: &[u8]) -> (r: bool)
    ensures
        r == (a@ == b@),
{
    if a.len() != b.len() {
        return false;
    }
    let mut i: usize = 0;
    while i < a.len()
        invariant
            a@.len() == b@.len(),
            i <= a@.len(),
            forall|j: int| 0 <= j < i ==> a@[j] == b@[j],
        decreases a@.len() - i,
    {
        if a[i] != b[i] {
            return false;
        }
        i = i + 1;
    }
    assert(a@ =~= b@);
    true
}

/// Whether the bytes `a` spell the literal `s`.
pub fn is_lit(a: &[u8], s: &str) -> (r: bool)
    ensures
        r == (a@ == s.spec_bytes()),
{
    bytes_eq(a, s.as_bytes())
}

impl Attribute {
    pub fn copy(&self) -> (r: Attribute)
        ensures
            r@ == self@,
    {
        Attribute { key: copy_bytes(self.key.as_slice()), value: copy_bytes(self.value.as_slice()) }
    }

    /// An attribute with a literal key and value.
    pub fn literal(key: &str, value: &str) -> (r: Attribute)
        ensures
            r@ == (AttrModel { key: key.spec_bytes(), value: value.spec_bytes() }),
    {
        Attribute { key: lit(key), value: lit(value) }
    }
}

pub fn copy_attributes(a: &Vec<Attribute>) -> (r: Vec<Attribute>)
    ensures
        r.deep_view() == a.deep_view(),
{
    let mut r: Vec<Attribute> = Vec::new();
    let mut i: usize = 0;
    while i < a.len()
        invariant
            i <= a@.len(),
            r@.len() == i,
            forall|j: int| 0 <= j < i ==> r@[j]@ == a@[j]@,
        decreases a@.len() - i,
    {
        r.push(a[i].copy());
        i = i + 1;
    }
    assert(r.deep_view() =~= a.deep_view());
    r
}

impl Tag {
    pub fn copy(&self) -> (r: Tag)
        ensures
            r@ == self@,
    {
        Tag { name: copy_bytes(self.name.as_slice()), attributes: copy_attributes(&self.attributes) }
    }

    /// A tag without attributes.
    pub fn bare(name: Vec<u8>) -> (r: Tag)
        ensures
            r@ == (TagModel { name: name@, attributes: Seq::empty() }),
    {
        let attributes: Vec<Attribute> = Vec::new();
        let r = Tag { name, attributes };
        assert(r@.attributes =~= Seq::<AttrModel>::empty());
        r
    }
}

impl XmlEvent {
    pub fn copy(&self) -> (r: XmlEvent)
        ensures
            r@ == self@,
    {
        match self {
            XmlEvent::Start(t) => XmlEvent::Start(t.copy()),
            XmlEvent::Empty(t) => XmlEvent::Empty(t.copy()),
            XmlEvent::End(n) => XmlEvent::End(copy_bytes(n.as_slice())),
            XmlEvent::Text(b) => XmlEvent::Text(copy_bytes(b.as_slice())),
            XmlEvent::CData(b) => XmlEvent::CData(copy_bytes(b.as_slice())),
            XmlEvent::Comment(b) => XmlEvent::Comment(copy_bytes(b.as_slice())),
            XmlEvent::Decl(b) => XmlEvent::Decl(copy_bytes(b.as_slice())),
            XmlEvent::PI(b) => XmlEvent::PI(copy_bytes(b.as_slice())),
            XmlEvent::DocType(b) => XmlEvent::DocType(copy_bytes(b.as_slice())),
        }
    }
}

pub fn copy_events(a: &[XmlEvent]) -> (r: Vec<XmlEvent>)
    ensures
        r.deep_view() == a.deep_view(),
{
    let mut r: Vec<XmlEvent> = Vec::new();
    let mut i: usize = 0;
    while i < a.len()
        invariant
            i <= a@.len(),
            r@.len() == i,
            forall|j: int| 0 <= j < i ==> r@[j]@ == a@[j]@,
        decreases a@.len() - i,
    {
        r.push(a[i].copy());
        i = i + 1;
    }
    assert(r.deep_view() =~= a.deep_view());
    r
}

// ---------------------------------------------------------------------------
// Renaming and rewriting, as the converter writes elements

/// The name that a written element gets: its local part under the active
/// prefix, the local part emptied when it is not valid UTF-8.
pub open spec fn renamed(prefix: Seq<u8>, name: Seq<u8>) -> Seq<u8> {
    tag_name(prefix, utf8_or_empty(local_name(name)))
}

/// An attribute as written: key and value emptied when they are not valid
/// UTF-8, the value escaped.
pub open spec fn rewritten_attr(a: AttrModel) -> AttrModel {
    AttrModel { key: utf8_or_empty(a.key), value: xml_escape(utf8_or_empty(a.value)) }
}

pub open spec fn rewritten_attrs(a: Seq<AttrModel>) -> Seq<AttrModel> {
    Seq::new(a.len(), |i: int| rewritten_attr(a[i]))
}

/// Whether an attribute has the key `key`.
pub open spec fn has_key(attrs: Seq<AttrModel>, key: Seq<u8>) -> bool {
    exists|i: int| 0 <= i < attrs.len() && (#[trigger] attrs[i]).key == key
}

/// The attributes with only the first of each key kept: what a reader that
/// skips repeated keys (as quick-xml's attribute iterator does) sees of them.
pub open spec fn first_keys(attrs: Seq<AttrModel>) -> Seq<AttrModel>
    decreases attrs.len(),
{
    if attrs.len() == 0 {
        Seq::empty()
    } else {
        let prev = first_keys(attrs.drop_last());
        if has_key(prev, attrs.last().key) {
            prev
        } else {
            prev.push(attrs.last())
        }
    }
}

/// A tag as written under the active prefix: its attributes as read (the
/// first of each key), rewritten.
pub open spec fn rewritten_tag(prefix: Seq<u8>, t: TagModel) -> TagModel {
    TagModel { name: renamed(prefix, t.name), attributes: rewritten_attrs(first_keys(t.attributes)) }
}

pub fn has_key_exec(attrs: &Vec<Attribute>, key: &[u8]) -> (r: bool)
    ensures
        r == has_key(attrs.deep_view(), key@),
{
    let ghost a = attrs.deep_view();
    let mut i: usize = 0;
    while i < attrs.len()
        invariant
            i <= a.len(),
            a == attrs.deep_view(),
            forall|j: int| 0 <= j < i ==> (#[trigger] a[j]).key != key@,
        decreases a.len() - i,
    {
        if bytes_eq(attrs[i].key.as_slice(), key) {
            assert(a[i as int].key == key@);
            return true;
        }
        i = i + 1;
    }
    false
}

/// Keeps only the first attribute of each key.
pub fn first_keys_of(attrs: &Vec<Attribute>) -> (r: Vec<Attribute>)
    ensures
        r.deep_view() == first_keys(attrs.deep_view()),
{
    let ghost a = attrs.deep_view();
    let mut out: Vec<Attribute> = Vec::new();
    let mut i: usize = 0;
    while i < attrs.len()
        invariant
            i <= a.len(),
            a == attrs.deep_view(),
            out.deep_view() == first_keys(a.subrange(0, i as int)),
        decreases a.len() - i,
    {
        assert(a.subrange(0, i + 1).drop_last() =~= a.subrange(0, i as int));
        assert(a.subrange(0, i + 1).last() == a[i as int]);
        if !has_key_exec(&out, attrs[i].key.as_slice()) {
            let ghost before = out.deep_view();
            out.push(attrs[i].copy());
            assert(out.deep_view() =~= before.push(a[i as int]));
        }
        i = i + 1;
    }
    assert(a.subrange(0, a.len() as int) =~= a);
    out
}


pub fn rename(prefix: &[u8], name: &[u8]) -> (r: Vec<u8>)
    ensures
        r@ == renamed(prefix@, name@),
        valid_utf8(r@),
{
    let (_, local) = split_name(name);
    let local = utf8_or_empty_vec(local);
    build_tag(prefix, local.as_slice())
}

pub fn rewrite_attr(a: &Attribute) -> (r: Attribute)
    ensures
        r@ == rewritten_attr(a@),
{
    let key = utf8_or_empty_vec(a.key.as_slice());
    let v = utf8_or_empty_vec(a.value.as_slice());
    let value = escape(v.as_slice());
    Attribute { key, value }
}

pub fn rewrite_attrs(a: &Vec<Attribute>) -> (r: Vec<Attribute>)
    ensures
        r.deep_view() == rewritten_attrs(a.deep_view()),
{
    let mut r: Vec<Attribute> = Vec::new();
    let mut i: usize = 0;
    while i < a.len()
        invariant
            i <= a@.len(),
            r@.len() == i,
            forall|j: int| 0 <= j < i ==> r@[j]@ == rewritten_attr(a@[j]@),
        decreases a@.len() - i,
    {
        r.push(rewrite_attr(&a[i]));
        i = i + 1;
    }
    assert(r.deep_view() =~= rewritten_attrs(a.deep_view()));
    r
}

pub fn rewrite_tag(prefix: &[u8], t: &Tag) -> (r: Tag)
    ensures
        r@ == rewritten_tag(prefix@, t@),
{
    Tag { name: rename(prefix, t.name.as_slice()), attributes: rewrite_attrs(&first_keys_of(&t.attributes)) }
}

/// `<local>text</local>` under the prefix, without attributes.
pub open spec fn text_element(prefix: Seq<u8>, local: Seq<u8>, text: Seq<u8>) -> Seq<EventModel> {
    let n = tag_name(prefix, local);
    seq![
        EventModel::Start(TagModel { name: n, attributes: Seq::empty() }),
        EventModel::Text(text),
        EventModel::End(n),
    ]
}

/// Appends `<local>text</local>` under the prefix.
pub fn push_text_element(out: &mut Vec<XmlEvent>, prefix: &[u8], local: &[u8], text: Vec<u8>)
    ensures
        final(out).deep_view() == old(out).deep_view() + text_element(prefix@, local@, text@),
{
    let ghost o = old(out).deep_view();
    let ghost t = text@;
    let n = build_tag(prefix, local);
    let n2 = copy_bytes(n.as_slice());
    out.push(XmlEvent::Start(Tag::bare(n)));
    out.push(XmlEvent::Text(text));
    out.push(XmlEvent::End(n2));
    assert(out.deep_view() =~= o + text_element(prefix@, local@, t));
}

/// Appends all of `more` to `out`.
pub fn append_events(out: &mut Vec<XmlEvent>, more: &Vec<XmlEvent>)
    ensures
        final(out).deep_view() == old(out).deep_view() + more.deep_view(),
{
    let ghost o = old(out).deep_view();
    let ghost m = more.deep_view();
    let mut k: usize = 0;
    while k < more.len()
        invariant
            m == more.deep_view(),
            k <= m.len(),
            out.deep_view() == o + m.subrange(0, k as int),
        decreases m.len() - k,
    {
        let ghost before = out.deep_view();
        out.push(more[k].copy());
        assert(out.deep_view() =~= before.push(m[k as int]));
        assert(m.subrange(0, k + 1) =~= m.subrange(0, k as int).push(m[k as int]));
        k = k + 1;
    }
    assert(m.subrange(0, m.len() as int) =~= m);
}

} // verus!
