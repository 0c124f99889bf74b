//! The root element `JPK`: the input's version and variant are read from its
//! namespace, and its namespace declarations are replaced by the JPK_V7(3) ones.
use vstd::prelude::*;
use vstd::string::*;
use vstd::utf8::*;
use crate::event::{first_keys, first_keys_of, AttrModel, Attribute, Tag, TagModel, XmlEvent, is_lit, lit, copy_bytes, bytes_eq, rewrite_tag, rewritten_tag};
use crate::form::{FormVariant, FormVersion};
use crate::names::name_prefix;
use crate::text::{utf8_or_empty, utf8_or_empty_vec};

verus! {

/// The version and variant that a namespace of a supported input names.
pub open spec fn ns_info(v: Seq<u8>) -> Option<(FormVersion, FormVariant)> {
    if v == "http://crd.gov.pl/wzor/2021/12/27/11148/".spec_bytes() {
        Some((FormVersion::V2, FormVariant::M))
    } else if v == "http://crd.gov.pl/wzor/2021/12/27/11149/".spec_bytes() {
        Some((FormVersion::V2, FormVariant::K))
    } else if v == "http://jpk.mf.gov.pl/wzor/2017/11/13/1113/".spec_bytes() {
        Some((FormVersion::V1, FormVariant::Unknown))
    } else if v == "http://crd.gov.pl/wzor/2025/12/19/14090/".spec_bytes() {
        Some((FormVersion::V3, FormVariant::M))
    } else if v == "http://crd.gov.pl/wzor/2025/12/19/14089/".spec_bytes() {
        Some((FormVersion::V3, FormVariant::K))
    } else {
        None
    }
}

/// Whether an attribute of the root declares its namespace: `xmlns`, or
/// `xmlns:<prefix>` for the root's own (non-empty) prefix.
pub open spec fn is_ns_attr(key: Seq<u8>, prefix: Seq<u8>) -> bool {
    ||| key == "xmlns".spec_bytes()
    ||| (prefix.len() > 0 && key.len() >= 6 && key.subrange(0, 6) == "xmlns:".spec_bytes()
        && key.subrange(6, key.len() as int) == prefix)
}

/// The version found so far and the variant known so far.
pub struct Detected {
    pub version: FormVersion,
    pub variant: FormVariant,
}

/// A namespace declaration sets the version; it sets the variant only when
/// that is still unknown.
pub open spec fn detect_step(d: Detected, a: AttrModel, prefix: Seq<u8>) -> Detected {
    if is_ns_attr(a.key, prefix) {
        match ns_info(a.value) {
            Some((ver, var)) => Detected {
                version: ver,
                variant: if d.variant == FormVariant::Unknown { var } else { d.variant },
            },
            None => d,
        }
    } else {
        d
    }
}

pub open spec fn detect_upto(attrs: Seq<AttrModel>, prefix: Seq<u8>, init: Detected, n: int) -> Detected
    decreases n,
{
    if n <= 0 {
        init
    } else {
        detect_step(detect_upto(attrs, prefix, init, n - 1), attrs[n - 1], prefix)
    }
}

/// The version and variant that the root's attributes name.
pub open spec fn detect(attrs: Seq<AttrModel>, prefix: Seq<u8>, init: Detected) -> Detected {
    detect_upto(attrs, prefix, init, attrs.len() as int)
}

pub fn is_ns_attr_exec(key: &[u8], prefix: &[u8]) -> (r: bool)
    ensures
        r == is_ns_attr(key@, prefix@),
{
    if is_lit(key, "xmlns") {
        return true;
    }
    if prefix.len() > 0 && key.len() >= 6 {
        let head = vstd::slice::slice_subrange(key, 0, 6);
        let tail = vstd::slice::slice_subrange(key, 6, key.len());
        is_lit(head, "xmlns:") && bytes_eq(tail, prefix)
    } else {
        false
    }
}

fn ns_info_exec(v: &[u8]) -> (r: Option<(FormVersion, FormVariant)>)
    ensures
        r == ns_info(v@),
{
    if is_lit(v, "http://crd.gov.pl/wzor/2021/12/27/11148/") {
        Some((FormVersion::V2, FormVariant::M))
    } else if is_lit(v, "http://crd.gov.pl/wzor/2021/12/27/11149/") {
        Some((FormVersion::V2, FormVariant::K))
    } else if is_lit(v, "http://jpk.mf.gov.pl/wzor/2017/11/13/1113/") {
        Some((FormVersion::V1, FormVariant::Unknown))
    } else if is_lit(v, "http://crd.gov.pl/wzor/2025/12/19/14090/") {
        Some((FormVersion::V3, FormVariant::M))
    } else if is_lit(v, "http://crd.gov.pl/wzor/2025/12/19/14089/") {
        Some((FormVersion::V3, FormVariant::K))
    } else {
        None
    }
}

/// Reads the version and variant from the root's namespace declarations.
pub fn detect_version(attrs: &Vec<Attribute>, prefix: &[u8], version: FormVersion, variant: FormVariant) -> (r: (FormVersion, FormVariant))
    ensures
        ({
            let d = detect(attrs.deep_view(), prefix@, Detected { version, variant });
            r.0 == d.version && r.1 == d.variant
        }),
{
    let ghost a = attrs.deep_view();
    let mut ver = version;
    let mut var = variant;
    let mut i: usize = 0;
    while i < attrs.len()
        invariant
            a == attrs.deep_view(),
            i <= a.len(),
            ({
                let d = detect_upto(a, prefix@, Detected { version, variant }, i as int);
                ver == d.version && var == d.variant
            }),
        decreases a.len() - i,
    {
        if is_ns_attr_exec(attrs[i].key.as_slice(), prefix) {
            if let Some((v, k)) = ns_info_exec(attrs[i].value.as_slice()) {
                ver = v;
                if var == FormVariant::Unknown {
                    var = k;
                }
            }
        }
        i = i + 1;
    }
    (ver, var)
}

// ---------------------------------------------------------------------------
// The output root

/// The JPK_V7(3) namespace of the variant.
pub open spec fn target_namespace(variant: FormVariant) -> Seq<u8> {
    if variant == FormVariant::K {
        "http://crd.gov.pl/wzor/2025/12/19/14089/".spec_bytes()
    } else {
        "http://crd.gov.pl/wzor/2025/12/19/14090/".spec_bytes()
    }
}

/// The schema location of the variant.
pub open spec fn schema_location(variant: FormVariant) -> Seq<u8> {
    if variant == FormVariant::K {
        "http://crd.gov.pl/wzor/2025/12/19/14089/ JPK_V7K3.xsd".spec_bytes()
    } else {
        "http://crd.gov.pl/wzor/2025/12/19/14090/ JPK_V7M3.xsd".spec_bytes()
    }
}

/// The key that declares the output namespace: `xmlns`, or `xmlns:<prefix>`.
pub open spec fn ns_key(active: Seq<u8>) -> Seq<u8> {
    if active.len() == 0 {
        "xmlns".spec_bytes()
    } else {
        "xmlns:".spec_bytes() + utf8_or_empty(active)
    }
}

pub open spec fn etd_namespace() -> Seq<u8> {
    "http://crd.gov.pl/xml/schematy/dziedzinowe/mf/2022/09/13/eD/DefinicjeTypy/".spec_bytes()
}

pub open spec fn xsi_namespace() -> Seq<u8> {
    "http://www.w3.org/2001/XMLSchema-instance".spec_bytes()
}

/// What an attribute of the input root becomes: namespace declarations of the
/// root point to the output namespace, `etd` to its current definitions, the
/// legacy `tns` and the schema instance declarations are dropped (the latter
/// are added again at the end), all others stay.
pub open spec fn root_attr_out(a: AttrModel, prefix: Seq<u8>, active: Seq<u8>, variant: FormVariant) -> Seq<AttrModel> {
    if is_ns_attr(a.key, prefix) {
        seq![AttrModel { key: ns_key(active), value: target_namespace(variant) }]
    } else if a.key == "xmlns:etd".spec_bytes() {
        seq![AttrModel { key: "xmlns:etd".spec_bytes(), value: etd_namespace() }]
    } else if a.key == "xmlns:tns".spec_bytes() || a.key == "xmlns:xsi".spec_bytes() || a.key
        == "xsi:schemaLocation".spec_bytes() {
        Seq::empty()
    } else {
        seq![a]
    }
}

pub open spec fn root_attrs_upto(attrs: Seq<AttrModel>, prefix: Seq<u8>, active: Seq<u8>, variant: FormVariant, n: int) -> Seq<AttrModel>
    decreases n,
{
    if n <= 0 {
        Seq::empty()
    } else {
        root_attrs_upto(attrs, prefix, active, variant, n - 1) + root_attr_out(attrs[n - 1], prefix, active, variant)
    }
}

/// The attributes of the output root.
pub open spec fn root_attrs(attrs: Seq<AttrModel>, prefix: Seq<u8>, active: Seq<u8>, variant: FormVariant) -> Seq<AttrModel> {
    root_attrs_upto(attrs, prefix, active, variant, attrs.len() as int) + seq![
        AttrModel { key: "xmlns:xsi".spec_bytes(), value: xsi_namespace() },
        AttrModel { key: "xsi:schemaLocation".spec_bytes(), value: schema_location(variant) },
    ]
}

/// The output root tag, written under the active prefix: the root's
/// attributes as read (the first of each key), rewritten.
#[verifier::opaque]
pub open spec fn root_tag_out(t: TagModel, active: Seq<u8>, variant: FormVariant) -> TagModel {
    rewritten_tag(
        active,
        TagModel {
            name: t.name,
            attributes: root_attrs(first_keys(t.attributes), name_prefix(t.name), active, variant),
        },
    )
}

fn concat_bytes(a: Vec<u8>, b: &[u8]) -> (r: Vec<u8>)
    ensures
        r@ == a@ + b@,
{
    let mut r = a;
    let ghost a0 = r@;
    let mut i: usize = 0;
    while i < b.len()
        invariant
            i <= b@.len(),
            r@ == a0 + b@.subrange(0, i as int),
        decreases b@.len() - i,
    {
        r.push(b[i]);
        assert(b@.subrange(0, i + 1) =~= b@.subrange(0, i as int).push(b@[i as int]));
        i = i + 1;
    }
    assert(b@.subrange(0, b@.len() as int) =~= b@);
    r
}

fn target_namespace_value(variant: FormVariant) -> (r: Vec<u8>)
    ensures
        r@ == target_namespace(variant),
{
    if variant == FormVariant::K {
        lit("http://crd.gov.pl/wzor/2025/12/19/14089/")
    } else {
        lit("http://crd.gov.pl/wzor/2025/12/19/14090/")
    }
}

/// Builds the output root tag from the input root tag.
pub fn root_tag(t: &Tag, active: &[u8], variant: FormVariant) -> (r: Tag)
    ensures
        r@ == root_tag_out(t@, active@, variant),
{
    reveal(root_tag_out);
    let (prefix, _) = crate::names::split_name(t.name.as_slice());
    let read = first_keys_of(&t.attributes);
    let ghost a = read.deep_view();
    let mut attrs: Vec<Attribute> = Vec::new();
    let mut i: usize = 0;
    while i < read.len()
        invariant
            a == read.deep_view(),
            i <= a.len(),
            prefix@ == name_prefix(t.name@),
            attrs.deep_view() == root_attrs_upto(a, prefix@, active@, variant, i as int),
        decreases a.len() - i,
    {
        let ghost before = attrs.deep_view();
        let k = read[i].key.as_slice();
        if is_ns_attr_exec(k, prefix) {
            let key = if active.len() == 0 {
                lit("xmlns")
            } else {
                concat_bytes(lit("xmlns:"), utf8_or_empty_vec(active).as_slice())
            };
            attrs.push(Attribute { key, value: target_namespace_value(variant) });
        } else if is_lit(k, "xmlns:etd") {
            attrs.push(
                Attribute::literal(
                    "xmlns:etd",
                    "http://crd.gov.pl/xml/schematy/dziedzinowe/mf/2022/09/13/eD/DefinicjeTypy/",
                ),
            );
        } else if is_lit(k, "xmlns:tns") || is_lit(k, "xmlns:xsi") || is_lit(k, "xsi:schemaLocation") {
        } else {
            attrs.push(read[i].copy());
        }
        assert(attrs.deep_view() =~= before + root_attr_out(a[i as int], prefix@, active@, variant));
        i = i + 1;
    }
    let ghost body = attrs.deep_view();
    attrs.push(Attribute::literal("xmlns:xsi", "http://www.w3.org/2001/XMLSchema-instance"));
    if variant == FormVariant::K {
        attrs.push(Attribute::literal("xsi:schemaLocation", "http://crd.gov.pl/wzor/2025/12/19/14089/ JPK_V7K3.xsd"));
    } else {
        attrs.push(Attribute::literal("xsi:schemaLocation", "http://crd.gov.pl/wzor/2025/12/19/14090/ JPK_V7M3.xsd"));
    }
    assert(attrs.deep_view() =~= root_attrs(a, prefix@, active@, variant));
    let owned = Tag { name: copy_bytes(t.name.as_slice()), attributes: attrs };
    rewrite_tag(active, &owned)
}

} // verus!
