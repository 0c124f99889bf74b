//! Writing a buffered child block under the output prefix, with the attribute
//! and text fixes that the JPK_V7(3) schema needs for some header fields.
use vstd::prelude::*;
use vstd::string::*;
use crate::event::{
    first_keys, first_keys_of, has_key,
    AttrModel, Attribute, EventModel, Tag, TagModel, XmlEvent, is_lit, lit, rename, renamed,
    rewrite_tag, rewritten_tag,
};
use crate::form::FormVariant;

verus! {

/// The `kodSystemowy` of the output form.
pub open spec fn kod_systemowy(variant: FormVariant) -> Seq<u8> {
    if variant == FormVariant::K {
        "JPK_V7K (3)".spec_bytes()
    } else {
        "JPK_V7M (3)".spec_bytes()
    }
}

pub fn kod_systemowy_value(variant: FormVariant) -> (r: Vec<u8>)
    ensures
        r@ == kod_systemowy(variant),
{
    if variant == FormVariant::K {
        lit("JPK_V7K (3)")
    } else {
        lit("JPK_V7M (3)")
    }
}

/// An attribute of a start tag in a `name` block, with the schema's values forced.
pub open spec fn replaced_attr(a: AttrModel, variant: FormVariant, name: Seq<u8>) -> AttrModel {
    if name == "KodFormularza".spec_bytes() && a.key == "kodSystemowy".spec_bytes() {
        AttrModel { key: "kodSystemowy".spec_bytes(), value: kod_systemowy(variant) }
    } else if name == "KodFormularza".spec_bytes() && a.key == "wersjaSchemy".spec_bytes() {
        AttrModel { key: "wersjaSchemy".spec_bytes(), value: "1-0E".spec_bytes() }
    } else if name == "CelZlozenia".spec_bytes() && a.key == "poz".spec_bytes() {
        AttrModel { key: "poz".spec_bytes(), value: "P_7".spec_bytes() }
    } else {
        a
    }
}


/// The attributes of a start tag in a `name` block: forced values replace the
/// given ones, and missing mandatory ones are added at the end.
pub open spec fn mapped_attrs(attrs: Seq<AttrModel>, variant: FormVariant, name: Seq<u8>) -> Seq<AttrModel> {
    let kf = name == "KodFormularza".spec_bytes();
    Seq::new(attrs.len(), |i: int| replaced_attr(attrs[i], variant, name)) + (if kf && !has_key(
        attrs,
        "kodSystemowy".spec_bytes(),
    ) {
        seq![AttrModel { key: "kodSystemowy".spec_bytes(), value: kod_systemowy(variant) }]
    } else {
        Seq::empty()
    }) + (if kf && !has_key(attrs, "wersjaSchemy".spec_bytes()) {
        seq![AttrModel { key: "wersjaSchemy".spec_bytes(), value: "1-0E".spec_bytes() }]
    } else {
        Seq::empty()
    }) + (if name == "CelZlozenia".spec_bytes() && !has_key(attrs, "poz".spec_bytes()) {
        seq![AttrModel { key: "poz".spec_bytes(), value: "P_7".spec_bytes() }]
    } else {
        Seq::empty()
    })
}

/// One event of a `name` block as written: elements under the prefix, the
/// form code's text forced to `JPK_VAT` and the form variant's text to `3`.
pub open spec fn mapped_event(ev: EventModel, variant: FormVariant, prefix: Seq<u8>, name: Seq<u8>) -> EventModel {
    match ev {
        EventModel::Start(t) => EventModel::Start(
            rewritten_tag(
                prefix,
                TagModel { name: t.name, attributes: mapped_attrs(first_keys(t.attributes), variant, name) },
            ),
        ),
        EventModel::Text(x) => if name == "KodFormularza".spec_bytes() || name
            == "KodFormularzaDekl".spec_bytes() {
            EventModel::Text("JPK_VAT".spec_bytes())
        } else if name == "WariantFormularza".spec_bytes() {
            EventModel::Text("3".spec_bytes())
        } else {
            EventModel::Text(x)
        },
        EventModel::Empty(t) => EventModel::Empty(rewritten_tag(prefix, t)),
        EventModel::End(n) => EventModel::End(renamed(prefix, n)),
        other => other,
    }
}

pub open spec fn mapped_block(evs: Seq<EventModel>, variant: FormVariant, prefix: Seq<u8>, name: Seq<u8>) -> Seq<EventModel> {
    Seq::new(evs.len(), |i: int| mapped_event(evs[i], variant, prefix, name))
}

fn map_attrs(attrs: &Vec<Attribute>, variant: FormVariant, name: &[u8]) -> (r: Vec<Attribute>)
    ensures
        r.deep_view() == mapped_attrs(attrs.deep_view(), variant, name@),
{
    let ghost a = attrs.deep_view();
    let kf = is_lit(name, "KodFormularza");
    let cel = is_lit(name, "CelZlozenia");
    let mut r: Vec<Attribute> = Vec::new();
    let mut has_kod = false;
    let mut has_wersja = false;
    let mut has_poz = false;
    let mut i: usize = 0;
    while i < attrs.len()
        invariant
            i <= a.len(),
            a == attrs.deep_view(),
            kf == (name@ == "KodFormularza".spec_bytes()),
            cel == (name@ == "CelZlozenia".spec_bytes()),
            r@.len() == i,
            forall|j: int| 0 <= j < i ==> r@[j]@ == replaced_attr(a[j], variant, name@),
            has_kod == (kf && has_key(a.subrange(0, i as int), "kodSystemowy".spec_bytes())),
            has_wersja == (kf && has_key(a.subrange(0, i as int), "wersjaSchemy".spec_bytes())),
            has_poz == (cel && has_key(a.subrange(0, i as int), "poz".spec_bytes())),
        decreases a.len() - i,
    {
        let k = attrs[i].key.as_slice();
        let ghost sub = a.subrange(0, i as int);
        let ghost sub1 = a.subrange(0, i + 1);
        assert forall|key: Seq<u8>| has_key(sub1, key) == (has_key(sub, key) || a[i as int].key == key) by {
            if has_key(sub1, key) {
                let j = choose|j: int| 0 <= j < sub1.len() && (#[trigger] sub1[j]).key == key;
                if j < i {
                    assert(sub[j] == sub1[j]);
                }
            }
            if has_key(sub, key) {
                let j = choose|j: int| 0 <= j < sub.len() && (#[trigger] sub[j]).key == key;
                assert(sub1[j] == sub[j]);
            }
            if a[i as int].key == key {
                assert(sub1[i as int] == a[i as int]);
            }
        }
        let is_kod = is_lit(k, "kodSystemowy");
        let is_wersja = is_lit(k, "wersjaSchemy");
        let is_poz = is_lit(k, "poz");
        has_kod = has_kod || (kf && is_kod);
        has_wersja = has_wersja || (kf && is_wersja);
        has_poz = has_poz || (cel && is_poz);
        if kf && is_kod {
            r.push(Attribute { key: lit("kodSystemowy"), value: kod_systemowy_value(variant) });
        } else if kf && is_wersja {
            r.push(Attribute::literal("wersjaSchemy", "1-0E"));
        } else if cel && is_poz {
            r.push(Attribute::literal("poz", "P_7"));
        } else {
            r.push(attrs[i].copy());
        }
        i = i + 1;
    }
    assert(a.subrange(0, a.len() as int) =~= a);
    let ghost body = r.deep_view();
    assert(body =~= Seq::new(a.len(), |j: int| replaced_attr(a[j], variant, name@)));
    if kf && !has_kod {
        r.push(Attribute { key: lit("kodSystemowy"), value: kod_systemowy_value(variant) });
    }
    let ghost r1 = r.deep_view();
    if kf && !has_wersja {
        r.push(Attribute::literal("wersjaSchemy", "1-0E"));
    }
    let ghost r2 = r.deep_view();
    if cel && !has_poz {
        r.push(Attribute::literal("poz", "P_7"));
    }
    assert(r.deep_view() =~= mapped_attrs(a, variant, name@));
    r
}

/// Appends the events of a `name` block as written.
pub fn write_block_mapped(
    out: &mut Vec<XmlEvent>,
    block: &[XmlEvent],
    variant: FormVariant,
    prefix: &[u8],
    name: &[u8],
)
    ensures
        final(out).deep_view() == old(out).deep_view() + mapped_block(
            block.deep_view(),
            variant,
            prefix@,
            name@,
        ),
{
    let ghost o = old(out).deep_view();
    let ghost b = block.deep_view();
    let mut i: usize = 0;
    while i < block.len()
        invariant
            b == block.deep_view(),
            i <= b.len(),
            out.deep_view() == o + mapped_block(b, variant, prefix@, name@).subrange(0, i as int),
        decreases b.len() - i,
    {
        let ghost before = out.deep_view();
        let ev = match &block[i] {
            XmlEvent::Start(t) => {
                let attributes = map_attrs(&first_keys_of(&t.attributes), variant, name);
                let mapped = Tag { name: crate::event::copy_bytes(t.name.as_slice()), attributes };
                XmlEvent::Start(rewrite_tag(prefix, &mapped))
            },
            XmlEvent::Text(x) => {
                if is_lit(name, "KodFormularza") || is_lit(name, "KodFormularzaDekl") {
                    XmlEvent::Text(lit("JPK_VAT"))
                } else if is_lit(name, "WariantFormularza") {
                    XmlEvent::Text(lit("3"))
                } else {
                    XmlEvent::Text(crate::event::copy_bytes(x.as_slice()))
                }
            },
            XmlEvent::Empty(t) => XmlEvent::Empty(rewrite_tag(prefix, t)),
            XmlEvent::End(n) => XmlEvent::End(rename(prefix, n.as_slice())),
            other => other.copy(),
        };
        assert(ev@ == mapped_event(b[i as int], variant, prefix@, name@));
        out.push(ev);
        assert(mapped_block(b, variant, prefix@, name@).subrange(0, i + 1) =~= mapped_block(
            b,
            variant,
            prefix@,
            name@,
        ).subrange(0, i as int).push(ev@));
        assert(out.deep_view() =~= before.push(ev@));
        i = i + 1;
    }
    assert(mapped_block(b, variant, prefix@, name@).subrange(0, b.len() as int) =~= mapped_block(
        b,
        variant,
        prefix@,
        name@,
    ));
}

} // verus!
