//! The taxpayer (`Podmiot1`): nested into the person or company block that the
//! JPK_V7(3) schema asks for, with an e-mail address always present.
use vstd::prelude::*;
use vstd::string::*;
use crate::event::{
    AttrModel, Attribute, EventModel, Tag, TagModel, XmlEvent, is_lit, lit, push_text_element,
    text_element, copy_bytes, bytes_eq,
};
use crate::form::FormVariant;
use crate::group::{Child, ChildModel, children_of, find_child, find_child_index, group_children};
use crate::mapped::{mapped_block, write_block_mapped};
use crate::names::{build_tag, tag_name};
use crate::text::{text_value, text_value_of};

verus! {

// ---------------------------------------------------------------------------
// The taxpayer's NIP

/// The text value of the last text event, `cur` when there is none.
pub open spec fn captured(cur: Option<Seq<u8>>, evs: Seq<EventModel>) -> Option<Seq<u8>>
    decreases evs.len(),
{
    if evs.len() == 0 {
        cur
    } else {
        match evs.last() {
            EventModel::Text(x) => Some(text_value(x)),
            _ => captured(cur, evs.drop_last()),
        }
    }
}

/// The NIP of a `NIP` child, when there is one.
pub open spec fn nip_from(children: Seq<ChildModel>, cur: Option<Seq<u8>>) -> Option<Seq<u8>> {
    match find_child(children, "NIP".spec_bytes()) {
        Some(i) => captured(cur, children[i].events),
        None => cur,
    }
}

/// The taxpayer's NIP after a `Podmiot1` block: a direct `NIP` child sets it;
/// when still unknown, the `NIP` of the person (or else company) block does.
#[verifier::opaque]
pub open spec fn subject_nip(children: Seq<ChildModel>, cur: Option<Seq<u8>>) -> Option<Seq<u8>> {
    let n1 = nip_from(children, cur);
    let nested = match find_child(children, "OsobaFizyczna".spec_bytes()) {
        Some(i) => Some(children_of(children[i].events)),
        None => match find_child(children, "OsobaNiefizyczna".spec_bytes()) {
            Some(i) => Some(children_of(children[i].events)),
            None => None,
        },
    };
    match nested {
        Some(n) => if n1 is None {
            nip_from(n, n1)
        } else {
            n1
        },
        None => n1,
    }
}

// ---------------------------------------------------------------------------
// The output block

/// `<Email>brak@adresu.email</Email>`: the placeholder for a missing address.
pub open spec fn default_email(prefix: Seq<u8>) -> Seq<EventModel> {
    text_element(prefix, "Email".spec_bytes(), "brak@adresu.email".spec_bytes())
}

/// The first child named `name`, or also `NazwaPelna` when `name` is `PelnaNazwa`.
pub open spec fn find_field(children: Seq<ChildModel>, name: Seq<u8>, with_alias: bool) -> Option<int>
    decreases children.len(),
{
    if children.len() == 0 {
        None
    } else if children[0].name == name || (with_alias && name == "PelnaNazwa".spec_bytes()
        && children[0].name == "NazwaPelna".spec_bytes()) {
        Some(0)
    } else {
        match find_field(children.drop_first(), name, with_alias) {
            Some(i) => Some(i + 1),
            None => None,
        }
    }
}

pub proof fn lemma_find_field(children: Seq<ChildModel>, name: Seq<u8>, with_alias: bool)
    ensures
        find_field(children, name, with_alias) matches Some(i) ==> 0 <= i < children.len(),
    decreases children.len(),
{
    if children.len() > 0 {
        lemma_find_field(children.drop_first(), name, with_alias);
    }
}

/// An event of a block's own tags, carrying the name `local` instead.
pub open spec fn retitled_event(e: EventModel, local: Seq<u8>) -> EventModel {
    match e {
        EventModel::Start(t) => EventModel::Start(TagModel { name: local, attributes: t.attributes }),
        EventModel::Empty(t) => EventModel::Empty(TagModel { name: local, attributes: t.attributes }),
        EventModel::End(_) => EventModel::End(local),
        other => other,
    }
}

/// A child block renamed to `local`: its first and last events (its own start
/// or empty tag and its end tag) carry the new name, the rest stays.
pub open spec fn retitled(evs: Seq<EventModel>, local: Seq<u8>) -> Seq<EventModel> {
    Seq::new(
        evs.len(),
        |i: int| if i == 0 || i == evs.len() - 1 { retitled_event(evs[i], local) } else { evs[i] },
    )
}

/// The field `name` as written, the e-mail placeholder for a missing `Email`;
/// a field found under its legacy name (`NazwaPelna`) is written as `name`.
pub open spec fn person_field(
    children: Seq<ChildModel>,
    name: Seq<u8>,
    with_alias: bool,
    variant: FormVariant,
    prefix: Seq<u8>,
) -> Seq<EventModel> {
    match find_field(children, name, with_alias) {
        Some(i) => mapped_block(
            if children[i].name == name { children[i].events } else { retitled(children[i].events, name) },
            variant,
            prefix,
            name,
        ),
        None => if name == "Email".spec_bytes() {
            default_email(prefix)
        } else {
            Seq::empty()
        },
    }
}

pub open spec fn person_fields(
    children: Seq<ChildModel>,
    names: Seq<Seq<u8>>,
    with_alias: bool,
    variant: FormVariant,
    prefix: Seq<u8>,
) -> Seq<EventModel>
    decreases names.len(),
{
    if names.len() == 0 {
        Seq::empty()
    } else {
        person_fields(children, names.drop_last(), with_alias, variant, prefix) + person_field(
            children,
            names.last(),
            with_alias,
            variant,
            prefix,
        )
    }
}

/// The fields of a natural person, in schema order.
pub open spec fn natural_person_names() -> Seq<Seq<u8>> {
    seq![
        "NIP".spec_bytes(),
        "Imie".spec_bytes(),
        "Nazwisko".spec_bytes(),
        "DataUrodzenia".spec_bytes(),
        "Email".spec_bytes(),
        "Telefon".spec_bytes(),
    ]
}

/// The fields of a company, in schema order.
pub open spec fn company_names() -> Seq<Seq<u8>> {
    seq!["NIP".spec_bytes(), "PelnaNazwa".spec_bytes(), "Email".spec_bytes(), "Telefon".spec_bytes()]
}

pub open spec fn wrapped(prefix: Seq<u8>, local: Seq<u8>, inner: Seq<EventModel>) -> Seq<EventModel> {
    let n = tag_name(prefix, local);
    seq![EventModel::Start(TagModel { name: n, attributes: Seq::empty() })] + inner + seq![
        EventModel::End(n),
    ]
}

/// The output `Podmiot1 rola="Podatnik"`: the input's person block, else its
/// company block, else its flat (V1) fields as a company block.
#[verifier::opaque]
pub open spec fn subject_output(children: Seq<ChildModel>, variant: FormVariant, prefix: Seq<u8>) -> Seq<EventModel> {
    let n = tag_name(prefix, "Podmiot1".spec_bytes());
    let inner = match find_child(children, "OsobaFizyczna".spec_bytes()) {
        Some(i) => wrapped(
            prefix,
            "OsobaFizyczna".spec_bytes(),
            person_fields(children_of(children[i].events), natural_person_names(), false, variant, prefix),
        ),
        None => match find_child(children, "OsobaNiefizyczna".spec_bytes()) {
            Some(i) => wrapped(
                prefix,
                "OsobaNiefizyczna".spec_bytes(),
                person_fields(children_of(children[i].events), company_names(), false, variant, prefix),
            ),
            None => wrapped(
                prefix,
                "OsobaNiefizyczna".spec_bytes(),
                person_fields(children, company_names(), true, variant, prefix),
            ),
        },
    };
    seq![
        EventModel::Start(TagModel {
            name: n,
            attributes: seq![AttrModel { key: "rola".spec_bytes(), value: "Podatnik".spec_bytes() }],
        }),
    ] + inner + seq![EventModel::End(n)]
}

// ---------------------------------------------------------------------------
// Executable part

fn captured_of(cur: Option<Vec<u8>>, evs: &Vec<XmlEvent>) -> (r: Option<Vec<u8>>)
    ensures
        crate::header::opt_bytes(r) == captured(crate::header::opt_bytes(cur), evs.deep_view()),
{
    let ghost e = evs.deep_view();
    let ghost c0 = crate::header::opt_bytes(cur);
    let mut v = cur;
    let mut i: usize = 0;
    while i < evs.len()
        invariant
            e == evs.deep_view(),
            i <= e.len(),
            crate::header::opt_bytes(v) == captured(c0, e.subrange(0, i as int)),
        decreases e.len() - i,
    {
        assert(e.subrange(0, i + 1).drop_last() =~= e.subrange(0, i as int));
        if let XmlEvent::Text(x) = &evs[i] {
            v = Some(text_value_of(x.as_slice()));
        }
        i = i + 1;
    }
    assert(e.subrange(0, e.len() as int) =~= e);
    v
}

fn nip_from_exec(children: &Vec<Child>, cur: Option<Vec<u8>>) -> (r: Option<Vec<u8>>)
    ensures
        crate::header::opt_bytes(r) == nip_from(children.deep_view(), crate::header::opt_bytes(cur)),
{
    match find_child_index(children, lit("NIP").as_slice()) {
        Some(i) => captured_of(cur, &children[i].events),
        None => cur,
    }
}

/// The taxpayer's NIP after this `Podmiot1` block.
pub fn subject_nip_of(buffer: &[XmlEvent], cur: Option<Vec<u8>>) -> (r: Option<Vec<u8>>)
    ensures
        crate::header::opt_bytes(r) == subject_nip(
            children_of(buffer.deep_view()),
            crate::header::opt_bytes(cur),
        ),
{
    reveal(subject_nip);
    let children = group_children(buffer);
    let n1 = nip_from_exec(&children, cur);
    let fiz = find_child_index(&children, lit("OsobaFizyczna").as_slice());
    let nested_index = match fiz {
        Some(i) => Some(i),
        None => find_child_index(&children, lit("OsobaNiefizyczna").as_slice()),
    };
    match nested_index {
        Some(i) => {
            let nested = group_children(children[i].events.as_slice());
            if n1.is_none() {
                nip_from_exec(&nested, n1)
            } else {
                n1
            }
        },
        None => n1,
    }
}

fn find_field_index(children: &Vec<Child>, name: &[u8], with_alias: bool) -> (r: Option<usize>)
    ensures
        r matches Some(i) ==> find_field(children.deep_view(), name@, with_alias) == Some(i as int)
            && i < children@.len(),
        r is None ==> find_field(children.deep_view(), name@, with_alias) is None,
{
    let ghost c = children.deep_view();
    let alias = with_alias && is_lit(name, "PelnaNazwa");
    let mut i: usize = 0;
    assert(c.subrange(0, c.len() as int) =~= c);
    while i < children.len()
        invariant
            c == children.deep_view(),
            i <= c.len(),
            alias == (with_alias && name@ == "PelnaNazwa".spec_bytes()),
            find_field(c, name@, with_alias) == match find_field(
                c.subrange(i as int, c.len() as int),
                name@,
                with_alias,
            ) {
                Some(k) => Some(k + i),
                None => None,
            },
        decreases c.len() - i,
    {
        let ghost rest = c.subrange(i as int, c.len() as int);
        assert(rest.drop_first() =~= c.subrange(i + 1, c.len() as int));
        assert(rest[0] == c[i as int]);
        if bytes_eq(children[i].name.as_slice(), name) || (alias && is_lit(children[i].name.as_slice(), "NazwaPelna")) {
            return Some(i);
        }
        i = i + 1;
    }
    None
}

/// Appends the placeholder address `<Email>brak@adresu.email</Email>` under the prefix.
pub fn write_default_email(out: &mut Vec<XmlEvent>, prefix: &[u8])
    ensures
        final(out).deep_view() == old(out).deep_view() + default_email(prefix@),
{
    push_text_element(out, prefix, lit("Email").as_slice(), lit("brak@adresu.email"));
}

fn retitle_event(e: &XmlEvent, local: &[u8]) -> (r: XmlEvent)
    ensures
        r@ == retitled_event(e@, local@),
{
    match e {
        XmlEvent::Start(t) => XmlEvent::Start(
            Tag { name: copy_bytes(local), attributes: crate::event::copy_attributes(&t.attributes) },
        ),
        XmlEvent::Empty(t) => XmlEvent::Empty(
            Tag { name: copy_bytes(local), attributes: crate::event::copy_attributes(&t.attributes) },
        ),
        XmlEvent::End(_) => XmlEvent::End(copy_bytes(local)),
        other => other.copy(),
    }
}

/// A copy of a child block renamed to `local`.
fn retitle(evs: &[XmlEvent], local: &[u8]) -> (r: Vec<XmlEvent>)
    ensures
        r.deep_view() == retitled(evs.deep_view(), local@),
{
    let ghost ev = evs.deep_view();
    let ghost want = retitled(ev, local@);
    let mut r: Vec<XmlEvent> = Vec::new();
    let mut i: usize = 0;
    while i < evs.len()
        invariant
            i <= ev.len(),
            ev == evs.deep_view(),
            want == retitled(ev, local@),
            r.deep_view().len() == i,
            forall|j: int| 0 <= j < i ==> r.deep_view()[j] == want[j],
        decreases ev.len() - i,
    {
        let e = if i == 0 || i + 1 == evs.len() {
            retitle_event(&evs[i], local)
        } else {
            evs[i].copy()
        };
        let ghost before = r.deep_view();
        r.push(e);
        assert(r.deep_view() =~= before.push(want[i as int]));
        i = i + 1;
    }
    assert(r.deep_view() =~= want);
    r
}

fn write_person_field(
    out: &mut Vec<XmlEvent>,
    children: &Vec<Child>,
    name: &str,
    with_alias: bool,
    variant: FormVariant,
    prefix: &[u8],
)
    ensures
        final(out).deep_view() == old(out).deep_view() + person_field(
            children.deep_view(),
            name.spec_bytes(),
            with_alias,
            variant,
            prefix@,
        ),
{
    let n = lit(name);
    match find_field_index(children, n.as_slice(), with_alias) {
        Some(i) => {
            proof {
                lemma_find_field(children.deep_view(), n@, with_alias);
            }
            if bytes_eq(children[i].name.as_slice(), n.as_slice()) {
                write_block_mapped(out, children[i].events.as_slice(), variant, prefix, n.as_slice());
            } else {
                let renamed_block = retitle(children[i].events.as_slice(), n.as_slice());
                write_block_mapped(out, renamed_block.as_slice(), variant, prefix, n.as_slice());
            }
        },
        None => {
            if is_lit(n.as_slice(), "Email") {
                write_default_email(out, prefix);
            } else {
                assert(out.deep_view() =~= old(out).deep_view() + Seq::<EventModel>::empty());
            }
        },
    }
}

#[verifier::rlimit(40)]
fn write_natural_person(out: &mut Vec<XmlEvent>, nested: &Vec<Child>, variant: FormVariant, prefix: &[u8])
    ensures
        final(out).deep_view() == old(out).deep_view() + person_fields(
            nested.deep_view(),
            natural_person_names(),
            false,
            variant,
            prefix@,
        ),
{
    let ghost o = old(out).deep_view();
    let ghost c = nested.deep_view();
    write_person_field(out, nested, "NIP", false, variant, prefix);
    write_person_field(out, nested, "Imie", false, variant, prefix);
    write_person_field(out, nested, "Nazwisko", false, variant, prefix);
    write_person_field(out, nested, "DataUrodzenia", false, variant, prefix);
    write_person_field(out, nested, "Email", false, variant, prefix);
    write_person_field(out, nested, "Telefon", false, variant, prefix);
    proof {
        let names = natural_person_names();
        reveal_with_fuel(person_fields, 7);
        assert(names.drop_last().drop_last().drop_last().drop_last().drop_last().drop_last() =~= Seq::<Seq<u8>>::empty());
        assert(names.drop_last().drop_last().drop_last().drop_last().drop_last() =~= seq!["NIP".spec_bytes()]);
        assert(names.drop_last().drop_last().drop_last().drop_last() =~= seq!["NIP".spec_bytes(), "Imie".spec_bytes()]);
        assert(names.drop_last().drop_last().drop_last() =~= seq!["NIP".spec_bytes(), "Imie".spec_bytes(), "Nazwisko".spec_bytes()]);
        assert(names.drop_last().drop_last() =~= seq!["NIP".spec_bytes(), "Imie".spec_bytes(), "Nazwisko".spec_bytes(), "DataUrodzenia".spec_bytes()]);
        assert(names.drop_last() =~= seq!["NIP".spec_bytes(), "Imie".spec_bytes(), "Nazwisko".spec_bytes(), "DataUrodzenia".spec_bytes(), "Email".spec_bytes()]);
        assert(out.deep_view() =~= o + person_fields(c, names, false, variant, prefix@));
    }
}

fn write_company(out: &mut Vec<XmlEvent>, children: &Vec<Child>, with_alias: bool, variant: FormVariant, prefix: &[u8])
    ensures
        final(out).deep_view() == old(out).deep_view() + person_fields(
            children.deep_view(),
            company_names(),
            with_alias,
            variant,
            prefix@,
        ),
{
    let ghost o = old(out).deep_view();
    let ghost c = children.deep_view();
    write_person_field(out, children, "NIP", with_alias, variant, prefix);
    write_person_field(out, children, "PelnaNazwa", with_alias, variant, prefix);
    write_person_field(out, children, "Email", with_alias, variant, prefix);
    write_person_field(out, children, "Telefon", with_alias, variant, prefix);
    proof {
        let names = company_names();
        reveal_with_fuel(person_fields, 5);
        assert(names.drop_last().drop_last().drop_last().drop_last() =~= Seq::<Seq<u8>>::empty());
        assert(names.drop_last().drop_last().drop_last() =~= seq!["NIP".spec_bytes()]);
        assert(names.drop_last().drop_last() =~= seq!["NIP".spec_bytes(), "PelnaNazwa".spec_bytes()]);
        assert(names.drop_last() =~= seq!["NIP".spec_bytes(), "PelnaNazwa".spec_bytes(), "Email".spec_bytes()]);
        assert(out.deep_view() =~= o + person_fields(c, names, with_alias, variant, prefix@));
    }
}

/// Writes the output `Podmiot1` block from the buffered input block.
pub fn process_podmiot_buffer(buffer: &[XmlEvent], variant: FormVariant, prefix: &[u8]) -> (r: Vec<XmlEvent>)
    ensures
        r.deep_view() == subject_output(children_of(buffer.deep_view()), variant, prefix@),
{
    reveal(subject_output);
    let children = group_children(buffer);
    let ghost c = children.deep_view();
    let n = build_tag(prefix, lit("Podmiot1").as_slice());
    let n_end = copy_bytes(n.as_slice());
    let mut attributes: Vec<Attribute> = Vec::new();
    attributes.push(Attribute::literal("rola", "Podatnik"));
    assert(attributes.deep_view() =~= seq![AttrModel { key: "rola".spec_bytes(), value: "Podatnik".spec_bytes() }]);
    let mut out: Vec<XmlEvent> = Vec::new();
    let ghost nv = n@;
    out.push(XmlEvent::Start(Tag { name: n, attributes }));
    let ghost o1 = out.deep_view();
    assert(o1 =~= seq![
        EventModel::Start(TagModel {
            name: nv,
            attributes: seq![AttrModel { key: "rola".spec_bytes(), value: "Podatnik".spec_bytes() }],
        }),
    ]);
    let fiz = find_child_index(&children, lit("OsobaFizyczna").as_slice());
    let niefiz = find_child_index(&children, lit("OsobaNiefizyczna").as_slice());
    let (local, nested_index) = match fiz {
        Some(i) => (lit("OsobaFizyczna"), Some(i)),
        None => (lit("OsobaNiefizyczna"), niefiz),
    };
    let o_tag = build_tag(prefix, local.as_slice());
    let o_end = copy_bytes(o_tag.as_slice());
    let ghost otag_v = o_tag@;
    assert(otag_v == tag_name(prefix@, local@));
    out.push(XmlEvent::Start(Tag::bare(o_tag)));
    let ghost o2 = out.deep_view();
    assert(o2 =~= o1.push(EventModel::Start(TagModel { name: otag_v, attributes: Seq::empty() })));
    let ghost inner: Seq<EventModel>;
    match nested_index {
        Some(i) => {
            let nested = group_children(children[i].events.as_slice());
            assert(c[i as int].events == children@[i as int].events.deep_view());
            if fiz.is_some() {
                write_natural_person(&mut out, &nested, variant, prefix);
                proof {
                    inner = person_fields(children_of(c[i as int].events), natural_person_names(), false, variant, prefix@);
                }
            } else {
                write_company(&mut out, &nested, false, variant, prefix);
                proof {
                    inner = person_fields(children_of(c[i as int].events), company_names(), false, variant, prefix@);
                }
            }
        },
        None => {
            write_company(&mut out, &children, true, variant, prefix);
            proof {
                inner = person_fields(c, company_names(), true, variant, prefix@);
            }
        },
    }
    assert(out.deep_view() == o2 + inner);
    let ghost local_v = local@;
    out.push(XmlEvent::End(o_end));
    let ghost o3 = out.deep_view();
    assert(o3 =~= (o2 + inner).push(EventModel::End(otag_v)));
    out.push(XmlEvent::End(n_end));
    assert(o3 =~= o1 + wrapped(prefix@, local_v, inner));
    proof {
        let spec_inner = match find_child(c, "OsobaFizyczna".spec_bytes()) {
            Some(i) => wrapped(
                prefix@,
                "OsobaFizyczna".spec_bytes(),
                person_fields(children_of(c[i].events), natural_person_names(), false, variant, prefix@),
            ),
            None => match find_child(c, "OsobaNiefizyczna".spec_bytes()) {
                Some(i) => wrapped(
                    prefix@,
                    "OsobaNiefizyczna".spec_bytes(),
                    person_fields(children_of(c[i].events), company_names(), false, variant, prefix@),
                ),
                None => wrapped(
                    prefix@,
                    "OsobaNiefizyczna".spec_bytes(),
                    person_fields(c, company_names(), true, variant, prefix@),
                ),
            },
        };
        assert(spec_inner == wrapped(prefix@, local_v, inner));
        assert(out.deep_view() =~= o1 + spec_inner + seq![EventModel::End(nv)]);
    }
    assert(out.deep_view() =~= subject_output(c, variant, prefix@));
    out
}

} // verus!
