//! The form header (`Naglowek`): the output variant is decided and the header
//! is written in the element order of the JPK_V7(3) schema, with the mandatory
//! fields filled in.
use vstd::prelude::*;
use vstd::string::*;
use vstd::utf8::*;
use crate::event::{
    append_events, first_keys, first_keys_of,
    AttrModel, Attribute, EventModel, Tag, TagModel, XmlEvent, is_lit, lit, push_text_element,
    text_element, copy_bytes,
};
use crate::form::{FormVariant, FormVersion};
use crate::group::{Child, ChildModel, children_of, find_child, find_child_index, group_children};
use crate::mapped::{kod_systemowy, kod_systemowy_value, mapped_block, write_block_mapped};
use crate::names::{build_tag, tag_name};
use crate::text::{
    escape, i32_from_str, is_boundary, parse_i32, strip_leading_zeros, strip_zeros, text_value,
    text_value_of, xml_escape,
};

verus! {

broadcast use {vstd::utf8::encode_utf8_valid_utf8, vstd::utf8::valid_utf8_split};

// ---------------------------------------------------------------------------
// Reading the input header

pub open spec fn contains_bytes(s: Seq<u8>, pat: Seq<u8>) -> bool {
    exists|i: int| 0 <= i && i + pat.len() <= s.len() && #[trigger] s.subrange(i, i + pat.len()) == pat
}

pub fn contains(s: &[u8], pat: &[u8]) -> (r: bool)
    ensures
        r == contains_bytes(s@, pat@),
{
    if pat.len() > s.len() {
        return false;
    }
    if pat.len() == 0 {
        assert(s@.subrange(0int, 0int + pat@.len()) =~= pat@);
        return true;
    }
    let slen = s.len();
    let plen = pat.len();
    let last = slen - plen;
    let mut i: usize = 0;
    while i <= last
        invariant
            pat@.len() <= s@.len(),
            last == s@.len() - pat@.len(),
            slen == s@.len(),
            plen == pat@.len(),
            last < s@.len(),
            i <= last + 1,
            forall|j: int| 0 <= j < i ==> #[trigger] s@.subrange(j, j + pat@.len()) != pat@,
        decreases last + 1 - i,
    {
        assert(i + pat@.len() <= s@.len());
        if crate::event::bytes_eq(vstd::slice::slice_subrange(s, i, i + plen), pat) {
            assert(s@.subrange(i as int, i + pat@.len()) == pat@);
            return true;
        }
        i = i + 1;
    }
    false
}

/// The variant an attribute value names: `V7K` before `V7M`.
pub open spec fn variant_from_attr(cur: FormVariant, a: AttrModel) -> FormVariant {
    if valid_utf8(a.value) {
        if contains_bytes(a.value, "V7K".spec_bytes()) {
            FormVariant::K
        } else if contains_bytes(a.value, "V7M".spec_bytes()) {
            FormVariant::M
        } else {
            cur
        }
    } else {
        cur
    }
}

pub open spec fn variant_from_attrs(cur: FormVariant, attrs: Seq<AttrModel>) -> FormVariant
    decreases attrs.len(),
{
    if attrs.len() == 0 {
        cur
    } else {
        variant_from_attr(variant_from_attrs(cur, attrs.drop_last()), attrs.last())
    }
}

pub open spec fn is_form_code_name(n: Seq<u8>) -> bool {
    n == "KodFormularza".spec_bytes() || n == "KodFormularzaDekl".spec_bytes()
}

/// The variant named by the attributes of a form code element.
pub open spec fn variant_from_child(cur: FormVariant, c: ChildModel) -> FormVariant {
    if is_form_code_name(c.name) && c.events.len() > 0 {
        match c.events[0] {
            EventModel::Start(t) => variant_from_attrs(cur, first_keys(t.attributes)),
            _ => cur,
        }
    } else {
        cur
    }
}

pub open spec fn form_code_variant_upto(children: Seq<ChildModel>, n: int) -> FormVariant
    decreases n,
{
    if n <= 0 {
        FormVariant::Unknown
    } else {
        variant_from_child(form_code_variant_upto(children, n - 1), children[n - 1])
    }
}

/// The variant that the header's form code names, `Unknown` when none does.
pub open spec fn form_code_variant(children: Seq<ChildModel>) -> FormVariant {
    form_code_variant_upto(children, children.len() as int)
}

/// The trimmed text value of the last text event, `cur` when there is none.
pub open spec fn last_text(cur: Seq<u8>, evs: Seq<EventModel>) -> Seq<u8>
    decreases evs.len(),
{
    if evs.len() == 0 {
        cur
    } else {
        match evs.last() {
            EventModel::Text(x) => text_value(x),
            _ => last_text(cur, evs.drop_last()),
        }
    }
}

pub open spec fn field_upto(children: Seq<ChildModel>, name: Seq<u8>, n: int) -> Seq<u8>
    decreases n,
{
    if n <= 0 {
        Seq::empty()
    } else {
        let prev = field_upto(children, name, n - 1);
        if children[n - 1].name == name {
            last_text(prev, children[n - 1].events)
        } else {
            prev
        }
    }
}

/// The text value of the header field `name` (of its last text among all such
/// fields), empty when there is none.
pub open spec fn field(children: Seq<ChildModel>, name: Seq<u8>) -> Seq<u8> {
    field_upto(children, name, children.len() as int)
}

pub proof fn lemma_last_text_valid(cur: Seq<u8>, evs: Seq<EventModel>)
    requires
        valid_utf8(cur),
    ensures
        valid_utf8(last_text(cur, evs)),
    decreases evs.len(),
{
    if evs.len() > 0 {
        lemma_last_text_valid(cur, evs.drop_last());
    }
}

pub proof fn lemma_field_valid(children: Seq<ChildModel>, name: Seq<u8>, n: int)
    ensures
        valid_utf8(field_upto(children, name, n)),
    decreases n,
{
    if n > 0 {
        lemma_field_valid(children, name, n - 1);
        lemma_last_text_valid(field_upto(children, name, n - 1), children[n - 1].events);
    } else {
        assert(valid_utf8(Seq::<u8>::empty()));
    }
}

// ---------------------------------------------------------------------------
// The output variant

/// Characters 5..7 of a date `YYYY-MM-DD`: its month.
pub open spec fn month_of(date: Seq<u8>) -> Seq<u8> {
    date.subrange(5, 7)
}

/// The variant of the output form: the one given by the caller, else the one
/// the form code names, else monthly when `DataOd` and `DataDo` fall in the
/// same month and quarterly when not, else the one already known; monthly
/// when still unknown.
pub open spec fn header_variant(children: Seq<ChildModel>, explicit: FormVariant, current: FormVariant) -> FormVariant {
    let kf = form_code_variant(children);
    let od = field(children, "DataOd".spec_bytes());
    let dd = field(children, "DataDo".spec_bytes());
    let v = if explicit != FormVariant::Unknown {
        explicit
    } else if kf != FormVariant::Unknown {
        kf
    } else if od.len() >= 7 && dd.len() >= 7 {
        if month_of(od) == month_of(dd) {
            FormVariant::M
        } else {
            FormVariant::K
        }
    } else {
        current
    };
    if v == FormVariant::Unknown {
        FormVariant::M
    } else {
        v
    }
}

/// Taking the months of the dates would split a character in two: a string
/// slice there panics, so such a header cannot be converted.
pub open spec fn variant_panics(children: Seq<ChildModel>, explicit: FormVariant) -> bool {
    let od = field(children, "DataOd".spec_bytes());
    let dd = field(children, "DataDo".spec_bytes());
    &&& explicit == FormVariant::Unknown
    &&& form_code_variant(children) == FormVariant::Unknown
    &&& od.len() >= 7
    &&& dd.len() >= 7
    &&& !(is_char_boundary(od, 5) && is_char_boundary(od, 7) && is_char_boundary(dd, 5)
        && is_char_boundary(dd, 7))
}

// ---------------------------------------------------------------------------
// Mandatory fields

pub open spec fn opt_bytes(o: Option<Vec<u8>>) -> Option<Seq<u8>> {
    match o {
        Some(v) => Some(v@),
        None => None,
    }
}

/// The tax office code: the caller's when given, else the input's.
pub open spec fn kod_urzedu_value(children: Seq<ChildModel>, kod: Option<Seq<u8>>) -> Seq<u8> {
    match kod {
        Some(v) => v,
        None => field(children, "KodUrzedu".spec_bytes()),
    }
}

/// A V1 input without a tax office code cannot be converted.
pub open spec fn kod_urzedu_missing(children: Seq<ChildModel>, kod: Option<Seq<u8>>, version: FormVersion) -> bool {
    &&& find_child(children, "KodUrzedu".spec_bytes()) is None
    &&& kod_urzedu_value(children, kod).len() == 0
    &&& version == FormVersion::V1
}

/// The year: the first four characters of `DataOd` when there is one, else `Rok`.
pub open spec fn rok_value(children: Seq<ChildModel>) -> Seq<u8> {
    let od = field(children, "DataOd".spec_bytes());
    if od.len() > 0 {
        od.subrange(0, 4)
    } else {
        field(children, "Rok".spec_bytes())
    }
}

/// The month without leading zeros: from `DataOd` when there is one, else `Miesiac`.
pub open spec fn miesiac_value(children: Seq<ChildModel>) -> Seq<u8> {
    let od = field(children, "DataOd".spec_bytes());
    strip_leading_zeros(if od.len() > 0 { month_of(od) } else { field(children, "Miesiac".spec_bytes()) })
}

/// Taking the year or the month of `DataOd` splits a character in two or runs
/// past its end: a string slice there panics, so such a header cannot be converted.
pub open spec fn fields_panic(children: Seq<ChildModel>, kod: Option<Seq<u8>>, version: FormVersion) -> bool {
    let od = field(children, "DataOd".spec_bytes());
    &&& !kod_urzedu_missing(children, kod, version)
    &&& od.len() > 0
    &&& ((find_child(children, "Rok".spec_bytes()) is None && !is_char_boundary(od, 4)) || (
    find_child(children, "Miesiac".spec_bytes()) is None && !(is_char_boundary(od, 5)
        && is_char_boundary(od, 7))))
}

/// The headers whose dates cannot be sliced as the conversion needs (see above).
pub open spec fn header_panics(
    children: Seq<ChildModel>,
    explicit: FormVariant,
    kod: Option<Seq<u8>>,
    version: FormVersion,
) -> bool {
    variant_panics(children, explicit) || fields_panic(children, kod, version)
}

// ---------------------------------------------------------------------------
// The output header

/// The input block `name` as written, or `default` when the input has none.
pub open spec fn block_or(
    children: Seq<ChildModel>,
    name: Seq<u8>,
    variant: FormVariant,
    prefix: Seq<u8>,
    default: Seq<EventModel>,
) -> Seq<EventModel> {
    match find_child(children, name) {
        Some(i) => mapped_block(children[i].events, variant, prefix, name),
        None => default,
    }
}

/// `<KodFormularza kodSystemowy=".." wersjaSchemy="1-0E">JPK_VAT</KodFormularza>`.
pub open spec fn default_form_code(prefix: Seq<u8>, variant: FormVariant) -> Seq<EventModel> {
    let n = tag_name(prefix, "KodFormularza".spec_bytes());
    seq![
        EventModel::Start(TagModel {
            name: n,
            attributes: seq![
                AttrModel { key: "kodSystemowy".spec_bytes(), value: kod_systemowy(variant) },
                AttrModel { key: "wersjaSchemy".spec_bytes(), value: "1-0E".spec_bytes() },
            ],
        }),
        EventModel::Text("JPK_VAT".spec_bytes()),
        EventModel::End(n),
    ]
}

pub open spec fn default_kod_urzedu(children: Seq<ChildModel>, kod: Option<Seq<u8>>, prefix: Seq<u8>) -> Seq<EventModel> {
    let v = kod_urzedu_value(children, kod);
    if v.len() > 0 {
        text_element(prefix, "KodUrzedu".spec_bytes(), xml_escape(v))
    } else {
        Seq::empty()
    }
}

pub open spec fn default_rok(children: Seq<ChildModel>, prefix: Seq<u8>) -> Seq<EventModel> {
    let r = rok_value(children);
    if r.len() > 0 && (match i32_from_str(r) {
        Some(n) => n > 0,
        None => false,
    }) {
        text_element(prefix, "Rok".spec_bytes(), xml_escape(r))
    } else {
        Seq::empty()
    }
}

pub open spec fn default_miesiac(children: Seq<ChildModel>, prefix: Seq<u8>) -> Seq<EventModel> {
    let m = miesiac_value(children);
    if m.len() > 0 {
        text_element(prefix, "Miesiac".spec_bytes(), xml_escape(m))
    } else {
        Seq::empty()
    }
}

/// The header fields up to `CelZlozenia`, in schema order.
#[verifier::opaque]
pub open spec fn header_head(children: Seq<ChildModel>, variant: FormVariant, prefix: Seq<u8>) -> Seq<EventModel> {
    seq![EventModel::Start(TagModel { name: tag_name(prefix, "Naglowek".spec_bytes()), attributes: Seq::empty() })]
        + block_or(children, "KodFormularza".spec_bytes(), variant, prefix, default_form_code(prefix, variant))
        + block_or(children, "WariantFormularza".spec_bytes(), variant, prefix,
            text_element(prefix, "WariantFormularza".spec_bytes(), "3".spec_bytes()))
        + block_or(children, "DataWytworzeniaJPK".spec_bytes(), variant, prefix, Seq::empty())
        + block_or(children, "NazwaSystemu".spec_bytes(), variant, prefix, Seq::empty())
        + block_or(children, "CelZlozenia".spec_bytes(), variant, prefix, Seq::empty())
}

/// The tax office code as written: the caller's non-empty code takes priority
/// over the input's block, which is written when the caller gave none.
pub open spec fn kod_urzedu_block(
    children: Seq<ChildModel>,
    variant: FormVariant,
    kod: Option<Seq<u8>>,
    prefix: Seq<u8>,
) -> Seq<EventModel> {
    match kod {
        Some(u) => if u.len() > 0 {
            text_element(prefix, "KodUrzedu".spec_bytes(), xml_escape(u))
        } else {
            block_or(children, "KodUrzedu".spec_bytes(), variant, prefix, default_kod_urzedu(children, kod, prefix))
        },
        None => block_or(children, "KodUrzedu".spec_bytes(), variant, prefix, default_kod_urzedu(children, kod, prefix)),
    }
}

/// The whole output header: the head, then `KodUrzedu`, `Rok` and `Miesiac`.
/// Input fields outside the schema (`DataOd`, `DataDo`, ...) are dropped.
#[verifier::opaque]
pub open spec fn header_output(
    children: Seq<ChildModel>,
    variant: FormVariant,
    kod: Option<Seq<u8>>,
    prefix: Seq<u8>,
) -> Seq<EventModel> {
    header_head(children, variant, prefix)
        + kod_urzedu_block(children, variant, kod, prefix)
        + block_or(children, "Rok".spec_bytes(), variant, prefix, default_rok(children, prefix))
        + block_or(children, "Miesiac".spec_bytes(), variant, prefix, default_miesiac(children, prefix))
        + seq![EventModel::End(tag_name(prefix, "Naglowek".spec_bytes()))]
}

/// What processing a header gives: the events written, the output variant,
/// and whether conversion stops for want of a tax office code (the events then
/// end after `CelZlozenia`).
pub struct HeaderOutcome {
    pub events: Vec<XmlEvent>,
    pub variant: FormVariant,
    pub missing_kod_urzedu: bool,
}


fn variant_of_attrs(cur: FormVariant, attrs: &Vec<Attribute>) -> (r: FormVariant)
    ensures
        r == variant_from_attrs(cur, attrs.deep_view()),
{
    let ghost a = attrs.deep_view();
    let k = lit("V7K");
    let m = lit("V7M");
    let mut v = cur;
    let mut i: usize = 0;
    while i < attrs.len()
        invariant
            a == attrs.deep_view(),
            i <= a.len(),
            k@ == "V7K".spec_bytes(),
            m@ == "V7M".spec_bytes(),
            v == variant_from_attrs(cur, a.subrange(0, i as int)),
        decreases a.len() - i,
    {
        assert(a.subrange(0, i + 1).drop_last() =~= a.subrange(0, i as int));
        let val = attrs[i].value.as_slice();
        if crate::text::is_valid_utf8(val) {
            if contains(val, k.as_slice()) {
                v = FormVariant::K;
            } else if contains(val, m.as_slice()) {
                v = FormVariant::M;
            }
        }
        i = i + 1;
    }
    assert(a.subrange(0, a.len() as int) =~= a);
    v
}

fn form_code_variant_of(children: &Vec<Child>) -> (r: FormVariant)
    ensures
        r == form_code_variant(children.deep_view()),
{
    let ghost c = children.deep_view();
    let mut v = FormVariant::Unknown;
    let mut i: usize = 0;
    while i < children.len()
        invariant
            c == children.deep_view(),
            i <= c.len(),
            v == form_code_variant_upto(c, i as int),
        decreases c.len() - i,
    {
        let ch = &children[i];
        if (is_lit(ch.name.as_slice(), "KodFormularza") || is_lit(ch.name.as_slice(), "KodFormularzaDekl"))
            && ch.events.len() > 0 {
            if let XmlEvent::Start(t) = &ch.events[0] {
                v = variant_of_attrs(v, &first_keys_of(&t.attributes));
            }
        }
        i = i + 1;
    }
    v
}

fn last_text_of(cur: Vec<u8>, evs: &Vec<XmlEvent>) -> (r: Vec<u8>)
    ensures
        r@ == last_text(cur@, evs.deep_view()),
{
    let ghost e = evs.deep_view();
    let ghost c0 = cur@;
    let mut v = cur;
    let mut i: usize = 0;
    while i < evs.len()
        invariant
            e == evs.deep_view(),
            i <= e.len(),
            v@ == last_text(c0, e.subrange(0, i as int)),
        decreases e.len() - i,
    {
        assert(e.subrange(0, i + 1).drop_last() =~= e.subrange(0, i as int));
        if let XmlEvent::Text(x) = &evs[i] {
            v = text_value_of(x.as_slice());
        }
        i = i + 1;
    }
    assert(e.subrange(0, e.len() as int) =~= e);
    v
}

/// The text value of the header field `name`.
fn field_value(children: &Vec<Child>, name: &str) -> (r: Vec<u8>)
    ensures
        r@ == field(children.deep_view(), name.spec_bytes()),
        valid_utf8(r@),
{
    let ghost c = children.deep_view();
    let mut v: Vec<u8> = Vec::new();
    let mut i: usize = 0;
    while i < children.len()
        invariant
            c == children.deep_view(),
            i <= c.len(),
            v@ == field_upto(c, name.spec_bytes(), i as int),
        decreases c.len() - i,
    {
        if is_lit(children[i].name.as_slice(), name) {
            v = last_text_of(v, &children[i].events);
        }
        i = i + 1;
    }
    proof {
        lemma_field_valid(c, name.spec_bytes(), c.len() as int);
    }
    v
}

fn month_eq(od: &Vec<u8>, dd: &Vec<u8>) -> (r: bool)
    requires
        od@.len() >= 7,
        dd@.len() >= 7,
    ensures
        r == (month_of(od@) == month_of(dd@)),
{
    crate::event::bytes_eq(vstd::slice::slice_subrange(od.as_slice(), 5, 7), vstd::slice::slice_subrange(dd.as_slice(), 5, 7))
}

/// Whether writing this header would split a character of a date or run past
/// its end: callers test this before [`process_naglowek_buffer`].
pub fn header_would_panic(
    buffer: &[XmlEvent],
    explicit: FormVariant,
    kod: &Option<Vec<u8>>,
    version: FormVersion,
) -> (r: bool)
    ensures
        r == header_panics(children_of(buffer.deep_view()), explicit, opt_bytes(*kod), version),
{
    let children = group_children(buffer);
    let ghost c = children.deep_view();
    let kf = form_code_variant_of(&children);
    let od = field_value(&children, "DataOd");
    let dd = field_value(&children, "DataDo");
    let variant_bad = explicit == FormVariant::Unknown && kf == FormVariant::Unknown && od.len() >= 7
        && dd.len() >= 7 && !(is_boundary(od.as_slice(), 5) && is_boundary(od.as_slice(), 7)
        && is_boundary(dd.as_slice(), 5) && is_boundary(dd.as_slice(), 7));
    let ku_found = find_child_index(&children, lit("KodUrzedu").as_slice()).is_some();
    let ku_len = match kod {
        Some(v) => v.len(),
        None => field_value(&children, "KodUrzedu").len(),
    };
    let missing = !ku_found && ku_len == 0 && version == FormVersion::V1;
    let rok_found = find_child_index(&children, lit("Rok").as_slice()).is_some();
    let mies_found = find_child_index(&children, lit("Miesiac").as_slice()).is_some();
    let fields_bad = !missing && od.len() > 0 && ((!rok_found && !is_boundary(od.as_slice(), 4)) || (
    !mies_found && !(is_boundary(od.as_slice(), 5) && is_boundary(od.as_slice(), 7))));
    variant_bad || fields_bad
}

fn decide_variant(
    children: &Vec<Child>,
    explicit: FormVariant,
    current: FormVariant,
    od: &Vec<u8>,
    dd: &Vec<u8>,
) -> (r: FormVariant)
    requires
        od@ == field(children.deep_view(), "DataOd".spec_bytes()),
        dd@ == field(children.deep_view(), "DataDo".spec_bytes()),
    ensures
        r == header_variant(children.deep_view(), explicit, current),
{
    let kf = form_code_variant_of(children);
    let v = if explicit != FormVariant::Unknown {
        explicit
    } else if kf != FormVariant::Unknown {
        kf
    } else if od.len() >= 7 && dd.len() >= 7 {
        if month_eq(od, dd) {
            FormVariant::M
        } else {
            FormVariant::K
        }
    } else {
        current
    };
    if v == FormVariant::Unknown {
        FormVariant::M
    } else {
        v
    }
}

/// Appends the input block `name` as written, or `default` when there is none.
fn write_block_or(
    out: &mut Vec<XmlEvent>,
    children: &Vec<Child>,
    name: &str,
    variant: FormVariant,
    prefix: &[u8],
    default: &Vec<XmlEvent>,
)
    ensures
        final(out).deep_view() == old(out).deep_view() + block_or(
            children.deep_view(),
            name.spec_bytes(),
            variant,
            prefix@,
            default.deep_view(),
        ),
{
    let n = lit(name);
    match find_child_index(children, n.as_slice()) {
        Some(i) => write_block_mapped(out, children[i].events.as_slice(), variant, prefix, n.as_slice()),
        None => crate::event::append_events(out, default),
    }
}

fn default_form_code_events(prefix: &[u8], variant: FormVariant) -> (r: Vec<XmlEvent>)
    ensures
        r.deep_view() == default_form_code(prefix@, variant),
{
    let n = build_tag(prefix, lit("KodFormularza").as_slice());
    let n2 = copy_bytes(n.as_slice());
    let mut attributes: Vec<Attribute> = Vec::new();
    attributes.push(Attribute { key: lit("kodSystemowy"), value: kod_systemowy_value(variant) });
    attributes.push(Attribute::literal("wersjaSchemy", "1-0E"));
    assert(attributes.deep_view() =~= seq![
        AttrModel { key: "kodSystemowy".spec_bytes(), value: kod_systemowy(variant) },
        AttrModel { key: "wersjaSchemy".spec_bytes(), value: "1-0E".spec_bytes() },
    ]);
    let mut out: Vec<XmlEvent> = Vec::new();
    out.push(XmlEvent::Start(Tag { name: n, attributes }));
    out.push(XmlEvent::Text(lit("JPK_VAT")));
    out.push(XmlEvent::End(n2));
    assert(out.deep_view() =~= default_form_code(prefix@, variant));
    out
}

fn text_element_events(prefix: &[u8], local: &str, text: Vec<u8>) -> (r: Vec<XmlEvent>)
    ensures
        r.deep_view() == text_element(prefix@, local.spec_bytes(), text@),
{
    let mut out: Vec<XmlEvent> = Vec::new();
    push_text_element(&mut out, prefix, lit(local).as_slice(), text);
    assert(out.deep_view() =~= text_element(prefix@, local.spec_bytes(), text@));
    out
}

fn write_head(out: &mut Vec<XmlEvent>, children: &Vec<Child>, variant: FormVariant, prefix: &[u8])
    requires
        old(out)@.len() == 0,
    ensures
        final(out).deep_view() == header_head(children.deep_view(), variant, prefix@),
{
    reveal(header_head);
    out.push(XmlEvent::Start(Tag::bare(build_tag(prefix, lit("Naglowek").as_slice()))));
    let ghost o0 = out.deep_view();
    write_block_or(out, children, "KodFormularza", variant, prefix, &default_form_code_events(prefix, variant));
    write_block_or(out, children, "WariantFormularza", variant, prefix, &text_element_events(prefix, "WariantFormularza", lit("3")));
    let empty: Vec<XmlEvent> = Vec::new();
    assert(empty.deep_view() =~= Seq::<EventModel>::empty());
    write_block_or(out, children, "DataWytworzeniaJPK", variant, prefix, &empty);
    write_block_or(out, children, "NazwaSystemu", variant, prefix, &empty);
    write_block_or(out, children, "CelZlozenia", variant, prefix, &empty);
    assert(out.deep_view() =~= header_head(children.deep_view(), variant, prefix@));
}

fn default_kod_urzedu_events(children: &Vec<Child>, kod: &Option<Vec<u8>>, prefix: &[u8]) -> (r: Vec<XmlEvent>)
    requires
        match *kod {
            Some(v) => valid_utf8(v@),
            None => true,
        },
    ensures
        r.deep_view() == default_kod_urzedu(children.deep_view(), opt_bytes(*kod), prefix@),
{
    let ku = match kod {
        Some(v) => copy_bytes(v.as_slice()),
        None => field_value(children, "KodUrzedu"),
    };
    if ku.len() > 0 {
        text_element_events(prefix, "KodUrzedu", escape(ku.as_slice()))
    } else {
        let r: Vec<XmlEvent> = Vec::new();
        assert(r.deep_view() =~= Seq::<EventModel>::empty());
        r
    }
}

fn default_rok_events(children: &Vec<Child>, od: &Vec<u8>, prefix: &[u8]) -> (r: Vec<XmlEvent>)
    requires
        od@ == field(children.deep_view(), "DataOd".spec_bytes()),
        valid_utf8(od@),
        od@.len() > 0 ==> is_char_boundary(od@, 4),
    ensures
        r.deep_view() == default_rok(children.deep_view(), prefix@),
{
    let r = if od.len() > 0 {
        proof {
            crate::text::lemma_char_boundary(od@, 4);
            crate::text::lemma_valid_between(od@, 0, 4);
        }
        copy_bytes(vstd::slice::slice_subrange(od.as_slice(), 0, 4))
    } else {
        field_value(children, "Rok")
    };
    if r.len() > 0 {
        if let Some(n) = parse_i32(r.as_slice()) {
            if n > 0 {
                return text_element_events(prefix, "Rok", escape(r.as_slice()));
            }
        }
    }
    let e: Vec<XmlEvent> = Vec::new();
    assert(e.deep_view() =~= Seq::<EventModel>::empty());
    e
}

fn default_miesiac_events(children: &Vec<Child>, od: &Vec<u8>, prefix: &[u8]) -> (r: Vec<XmlEvent>)
    requires
        od@ == field(children.deep_view(), "DataOd".spec_bytes()),
        valid_utf8(od@),
        od@.len() > 0 ==> is_char_boundary(od@, 5) && is_char_boundary(od@, 7),
    ensures
        r.deep_view() == default_miesiac(children.deep_view(), prefix@),
{
    let raw = if od.len() > 0 {
        proof {
            crate::text::lemma_char_boundary(od@, 7);
            crate::text::lemma_valid_between(od@, 5, 7);
        }
        copy_bytes(vstd::slice::slice_subrange(od.as_slice(), 5, 7))
    } else {
        field_value(children, "Miesiac")
    };
    let m = strip_zeros(raw.as_slice());
    proof {
        crate::text::lemma_strip_zeros_valid(raw@);
    }
    if m.len() > 0 {
        text_element_events(prefix, "Miesiac", escape(m.as_slice()))
    } else {
        let e: Vec<XmlEvent> = Vec::new();
        assert(e.deep_view() =~= Seq::<EventModel>::empty());
        e
    }
}

/// Writes the header `Naglowek` of the output form from the buffered input header.
pub fn process_naglowek_buffer(
    buffer: &[XmlEvent],
    explicit: FormVariant,
    current: FormVariant,
    version: FormVersion,
    kod: &Option<Vec<u8>>,
    prefix: &[u8],
) -> (r: HeaderOutcome)
    requires
        match *kod {
            Some(v) => valid_utf8(v@),
            None => true,
        },
        !header_panics(children_of(buffer.deep_view()), explicit, opt_bytes(*kod), version),
    ensures
        ({
            let children = children_of(buffer.deep_view());
            let k = opt_bytes(*kod);
            &&& r.variant == header_variant(children, explicit, current)
            &&& r.missing_kod_urzedu == kod_urzedu_missing(children, k, version)
            &&& r.events.deep_view() == if r.missing_kod_urzedu {
                header_head(children, r.variant, prefix@)
            } else {
                header_output(children, r.variant, k, prefix@)
            }
        }),
{
    reveal(header_output);
    let children = group_children(buffer);
    let ghost c = children.deep_view();
    let od = field_value(&children, "DataOd");
    let dd = field_value(&children, "DataDo");
    let variant = decide_variant(&children, explicit, current, &od, &dd);
    let mut out: Vec<XmlEvent> = Vec::new();
    write_head(&mut out, &children, variant, prefix);
    let ku_found = find_child_index(&children, lit("KodUrzedu").as_slice()).is_some();
    let ku_len = match kod {
        Some(v) => v.len(),
        None => field_value(&children, "KodUrzedu").len(),
    };
    if !ku_found && ku_len == 0 && version == FormVersion::V1 {
        return HeaderOutcome { events: out, variant, missing_kod_urzedu: true };
    }
    let ghost head = out.deep_view();
    let mut from_caller = false;
    if let Some(u) = kod {
        if u.len() > 0 {
            let evs = text_element_events(prefix, "KodUrzedu", escape(u.as_slice()));
            append_events(&mut out, &evs);
            from_caller = true;
        }
    }
    if !from_caller {
        write_block_or(&mut out, &children, "KodUrzedu", variant, prefix, &default_kod_urzedu_events(&children, kod, prefix));
    }
    assert(out.deep_view() == head + kod_urzedu_block(c, variant, opt_bytes(*kod), prefix@));
    let rok_found = find_child_index(&children, lit("Rok").as_slice()).is_some();
    let rok_default = if rok_found {
        Vec::new()
    } else {
        default_rok_events(&children, &od, prefix)
    };
    write_block_or(&mut out, &children, "Rok", variant, prefix, &rok_default);
    let mies_found = find_child_index(&children, lit("Miesiac").as_slice()).is_some();
    let mies_default = if mies_found {
        Vec::new()
    } else {
        default_miesiac_events(&children, &od, prefix)
    };
    write_block_or(&mut out, &children, "Miesiac", variant, prefix, &mies_default);
    let ghost before_end = out.deep_view();
    out.push(XmlEvent::End(build_tag(prefix, lit("Naglowek").as_slice())));
    assert(out.deep_view() =~= header_output(c, variant, opt_bytes(*kod), prefix@));
    HeaderOutcome { events: out, variant, missing_kod_urzedu: false }
}

} // verus!
