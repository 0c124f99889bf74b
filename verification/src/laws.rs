//! Properties of the conversion as a whole, over one step or a whole run.
use vstd::prelude::*;
use vstd::string::*;
use crate::converter::{
    ConvModel, OutputModel, StepModel, events_out, initial_state, step, end_step, start_step,
    row_end_step, text_step, empty_step, other_step, passthrough_step, quiet, root_step,
};
use crate::event::EventModel;
use crate::form::{FormVariant, FormVersion};
use crate::row::ControlField;

verus! {

/// Runs the conversion over `evs` from `m`: the state after the last event,
/// and everything the events gave, in order, with the first error.
pub open spec fn run(m: ConvModel, evs: Seq<EventModel>) -> StepModel
    decreases evs.len(),
{
    if evs.len() == 0 {
        StepModel { state: m, out: Seq::empty(), error: None }
    } else {
        let r = run(m, evs.drop_last());
        let s = step(r.state, evs.last());
        StepModel {
            state: s.state,
            out: r.out + s.out,
            error: if r.error is Some { r.error } else { s.error },
        }
    }
}

/// How many counted rows of the given kind the outputs report.
pub open spec fn rows_reported(out: Seq<OutputModel>, sales: bool) -> nat
    decreases out.len(),
{
    if out.len() == 0 {
        0
    } else {
        rows_reported(out.drop_last(), sales) + match out.last() {
            OutputModel::Row(r) => if r.sales == sales && r.counted { 1nat } else { 0nat },
            _ => 0nat,
        }
    }
}

pub proof fn lemma_rows_reported_concat(a: Seq<OutputModel>, b: Seq<OutputModel>, sales: bool)
    ensures
        rows_reported(a + b, sales) == rows_reported(a, sales) + rows_reported(b, sales),
    decreases b.len(),
{
    if b.len() == 0 {
        assert(a + b =~= a);
    } else {
        assert((a + b).drop_last() =~= a + b.drop_last());
        lemma_rows_reported_concat(a, b.drop_last(), sales);
    }
}

pub proof fn lemma_rows_reported_events(evs: Seq<EventModel>, sales: bool)
    ensures
        rows_reported(events_out(evs), sales) == 0,
    decreases evs.len(),
{
    if evs.len() > 0 {
        assert(events_out(evs).drop_last() =~= events_out(evs.drop_last()));
        lemma_rows_reported_events(evs.drop_last(), sales);
    }
}

pub proof fn lemma_rows_reported_no_rows(out: Seq<OutputModel>, sales: bool)
    requires
        forall|i: int| 0 <= i < out.len() ==> !(#[trigger] out[i] is Row),
    ensures
        rows_reported(out, sales) == 0,
    decreases out.len(),
{
    if out.len() > 0 {
        lemma_rows_reported_no_rows(out.drop_last(), sales);
    }
}

pub proof fn lemma_row_end_count(m: ConvModel, buf: Seq<EventModel>, sales: bool)
    ensures
        row_end_step(m, buf, sales).state.count_sales == m.count_sales + rows_reported(
            row_end_step(m, buf, sales).out,
            true,
        ),
        row_end_step(m, buf, sales).state.count_purchase == m.count_purchase + rows_reported(
            row_end_step(m, buf, sales).out,
            false,
        ),
{
    let s = row_end_step(m, buf, sales);
    let row_evs = crate::row::row_output(buf, crate::converter::active_prefix(m), sales);
    let head = seq![s.out[0]];
    assert(s.out =~= head + events_out(row_evs));
    lemma_rows_reported_concat(head, events_out(row_evs), true);
    lemma_rows_reported_concat(head, events_out(row_evs), false);
    lemma_rows_reported_events(row_evs, true);
    lemma_rows_reported_events(row_evs, false);
    assert(head.drop_last() =~= Seq::<OutputModel>::empty());
    assert(rows_reported(Seq::<OutputModel>::empty(), true) == 0);
    assert(rows_reported(Seq::<OutputModel>::empty(), false) == 0);
    assert(head.last() == s.out[0]);
    assert(rows_reported(head, true) == if sales && !crate::row::is_fp(buf, sales) { 1nat } else { 0nat });
    assert(rows_reported(head, false) == if !sales && !crate::row::is_fp(buf, sales) { 1nat } else { 0nat });
}

/// One step adds to each row count exactly the counted rows of that kind it reports.
pub proof fn law_step_row_count(m: ConvModel, ev: EventModel)
    ensures
        step(m, ev).state.count_sales == m.count_sales + rows_reported(step(m, ev).out, true),
        step(m, ev).state.count_purchase == m.count_purchase + rows_reported(step(m, ev).out, false),
{
    let s = step(m, ev);
    match ev {
        EventModel::End(n) => {
            let local = crate::names::local_name(n);
            let e = EventModel::End(n);
            if !m.inside_ctrl && !m.inside_naglowek && !m.inside_podmiot && local
                == "SprzedazWiersz".spec_bytes() && m.inside_sales {
                assert(s == row_end_step(m, m.sales_buffer.push(e), true));
                lemma_row_end_count(m, m.sales_buffer.push(e), true);
            } else if !m.inside_ctrl && !m.inside_naglowek && !m.inside_podmiot && local
                == "ZakupWiersz".spec_bytes() && m.inside_purchase {
                assert(s == row_end_step(m, m.purchase_buffer.push(e), false));
                lemma_rows_reported_no_rows(Seq::<OutputModel>::empty(), true);
                lemma_row_end_count(m, m.purchase_buffer.push(e), false);
            } else {
                assert forall|i: int| 0 <= i < s.out.len() implies !(#[trigger] s.out[i] is Row) by {}
                lemma_rows_reported_no_rows(s.out, true);
                lemma_rows_reported_no_rows(s.out, false);
            }
        },
        _ => {
            assert forall|i: int| 0 <= i < s.out.len() implies !(#[trigger] s.out[i] is Row) by {}
            lemma_rows_reported_no_rows(s.out, true);
            lemma_rows_reported_no_rows(s.out, false);
        },
    }
}

/// Over a whole run from a fresh state, each row count is the number of
/// counted rows of that kind reported so far: the count that a control
/// section is written with is the number of its rows.
pub proof fn law_run_row_count(
    target: Option<Seq<u8>>,
    kod: Option<Seq<u8>>,
    explicit: FormVariant,
    evs: Seq<EventModel>,
)
    ensures
        run(initial_state(target, kod, explicit), evs).state.count_sales == rows_reported(
            run(initial_state(target, kod, explicit), evs).out,
            true,
        ),
        run(initial_state(target, kod, explicit), evs).state.count_purchase == rows_reported(
            run(initial_state(target, kod, explicit), evs).out,
            false,
        ),
    decreases evs.len(),
{
    let m0 = initial_state(target, kod, explicit);
    if evs.len() > 0 {
        law_run_row_count(target, kod, explicit, evs.drop_last());
        let r = run(m0, evs.drop_last());
        law_step_row_count(r.state, evs.last());
        let s = step(r.state, evs.last());
        lemma_rows_reported_concat(r.out, s.out, true);
        lemma_rows_reported_concat(r.out, s.out, false);
    }
}

/// The variant given by the caller wins: once the output variant is decided,
/// it is the caller's.
pub open spec fn variant_follows_caller(m: ConvModel) -> bool {
    m.explicit_variant != FormVariant::Unknown ==> (m.variant == FormVariant::Unknown || m.variant
        == m.explicit_variant)
}

pub proof fn lemma_detect_keeps_variant(
    attrs: Seq<crate::event::AttrModel>,
    prefix: Seq<u8>,
    init: crate::root::Detected,
    n: int,
)
    requires
        init.variant != FormVariant::Unknown,
    ensures
        crate::root::detect_upto(attrs, prefix, init, n).variant == init.variant,
    decreases n,
{
    if n > 0 {
        lemma_detect_keeps_variant(attrs, prefix, init, n - 1);
    }
}

pub proof fn law_step_keeps_caller_variant(m: ConvModel, ev: EventModel)
    requires
        variant_follows_caller(m),
    ensures
        variant_follows_caller(step(m, ev).state),
{
    if m.explicit_variant != FormVariant::Unknown {
        match ev {
            EventModel::Start(t) => {
                let prefix = crate::names::name_prefix(t.name);
                let init = crate::root::Detected { version: m.version, variant: m.explicit_variant };
                lemma_detect_keeps_variant(
                    crate::event::first_keys(t.attributes),
                    prefix,
                    init,
                    crate::event::first_keys(t.attributes).len() as int,
                );
            },
            _ => {},
        }
    }
}

/// After the root, the output variant is decided (monthly or quarterly), and
/// it is the caller's when the caller gave one.
pub proof fn law_root_decides_variant(m: ConvModel, t: crate::event::TagModel)
    requires
        !m.has_checked_root,
        crate::names::local_name(t.name) == "JPK".spec_bytes(),
    ensures
        step(m, EventModel::Start(t)).error is None ==> step(m, EventModel::Start(t)).state.variant
            != FormVariant::Unknown,
        step(m, EventModel::Start(t)).error is None && m.explicit_variant != FormVariant::Unknown
            ==> step(m, EventModel::Start(t)).state.variant == m.explicit_variant,
{
    if m.explicit_variant != FormVariant::Unknown {
        let prefix = crate::names::name_prefix(t.name);
        let init = crate::root::Detected { version: m.version, variant: m.explicit_variant };
        lemma_detect_keeps_variant(
                    crate::event::first_keys(t.attributes),
                    prefix,
                    init,
                    crate::event::first_keys(t.attributes).len() as int,
                );
    }
}


/// A literal without `< > & ' "` is written as it is.
pub proof fn lemma_plain_literal(s: &str)
    requires
        is_ascii(s),
        forall|i: int|
            0 <= i < s@.len() ==> {
                let c = #[trigger] s@[i];
                c != '<' && c != '>' && c != '&' && c != '\'' && c != '"'
            },
    ensures
        crate::text::xml_escape(s.spec_bytes()) == s.spec_bytes(),
        vstd::utf8::valid_utf8(s.spec_bytes()),
{
    broadcast use vstd::string::is_ascii_spec_bytes, vstd::utf8::encode_utf8_valid_utf8;
    let b = s.spec_bytes();
    assert forall|i: int| 0 <= i < b.len() implies !crate::text::is_markup_byte(#[trigger] b[i]) by {
        assert(b[i] == s@[i] as u8);
    }
    crate::text::lemma_escape_plain(b);
}

pub proof fn lemma_schema_literals()
    ensures
        crate::text::xml_escape(crate::root::schema_location(FormVariant::K)) == crate::root::schema_location(FormVariant::K),
        crate::text::xml_escape(crate::root::schema_location(FormVariant::M)) == crate::root::schema_location(FormVariant::M),
        crate::text::xml_escape(crate::root::target_namespace(FormVariant::K)) == crate::root::target_namespace(FormVariant::K),
        crate::text::xml_escape(crate::root::target_namespace(FormVariant::M)) == crate::root::target_namespace(FormVariant::M),
        crate::text::xml_escape(crate::root::xsi_namespace()) == crate::root::xsi_namespace(),
{
    reveal_strlit("http://crd.gov.pl/wzor/2025/12/19/14089/ JPK_V7K3.xsd");
    reveal_strlit("http://crd.gov.pl/wzor/2025/12/19/14090/ JPK_V7M3.xsd");
    reveal_strlit("http://crd.gov.pl/wzor/2025/12/19/14089/");
    reveal_strlit("http://crd.gov.pl/wzor/2025/12/19/14090/");
    reveal_strlit("http://www.w3.org/2001/XMLSchema-instance");
    lemma_plain_literal("http://crd.gov.pl/wzor/2025/12/19/14089/ JPK_V7K3.xsd");
    lemma_plain_literal("http://crd.gov.pl/wzor/2025/12/19/14090/ JPK_V7M3.xsd");
    lemma_plain_literal("http://crd.gov.pl/wzor/2025/12/19/14089/");
    lemma_plain_literal("http://crd.gov.pl/wzor/2025/12/19/14090/");
    lemma_plain_literal("http://www.w3.org/2001/XMLSchema-instance");
}


/// Until the root has been seen, the version is unknown.
pub open spec fn version_from_root(m: ConvModel) -> bool {
    !m.has_checked_root ==> m.version == FormVersion::Unknown
}

/// Only the root sets the version.
pub proof fn law_step_version_from_root(m: ConvModel, ev: EventModel)
    requires
        version_from_root(m),
    ensures
        version_from_root(step(m, ev).state),
{
}

/// The root declares the namespace of a supported form.
pub open spec fn declares_supported_ns(attrs: Seq<crate::event::AttrModel>, prefix: Seq<u8>) -> bool {
    exists|i: int|
        0 <= i < attrs.len() && crate::root::is_ns_attr(#[trigger] attrs[i].key, prefix) && crate::root::ns_info(
            attrs[i].value,
        ) is Some
}

pub proof fn lemma_detect_version(
    attrs: Seq<crate::event::AttrModel>,
    prefix: Seq<u8>,
    init: crate::root::Detected,
    n: int,
)
    requires
        init.version == FormVersion::Unknown,
        0 <= n <= attrs.len(),
    ensures
        crate::root::detect_upto(attrs, prefix, init, n).version == FormVersion::Unknown <==> !(
        exists|i: int|
            0 <= i < n && crate::root::is_ns_attr(#[trigger] attrs[i].key, prefix) && crate::root::ns_info(
                attrs[i].value,
            ) is Some),
    decreases n,
{
    if n > 0 {
        lemma_detect_version(attrs, prefix, init, n - 1);
        let a = attrs[n - 1];
        if crate::root::is_ns_attr(a.key, prefix) && crate::root::ns_info(a.value) is Some {
            assert(crate::root::detect_upto(attrs, prefix, init, n).version != FormVersion::Unknown);
        } else {
            if exists|i: int|
                0 <= i < n && crate::root::is_ns_attr(#[trigger] attrs[i].key, prefix) && crate::root::ns_info(
                    attrs[i].value,
                ) is Some {
                let i = choose|i: int|
                    0 <= i < n && crate::root::is_ns_attr(#[trigger] attrs[i].key, prefix) && crate::root::ns_info(
                        attrs[i].value,
                    ) is Some;
                assert(i < n - 1);
            }
        }
    }
}

pub proof fn lemma_root_attrs_contains(
    attrs: Seq<crate::event::AttrModel>,
    prefix: Seq<u8>,
    active: Seq<u8>,
    variant: FormVariant,
    n: int,
    i: int,
)
    requires
        0 <= i < n <= attrs.len(),
        crate::root::is_ns_attr(attrs[i].key, prefix),
    ensures
        crate::root::root_attrs_upto(attrs, prefix, active, variant, n).contains(
            crate::event::AttrModel {
                key: crate::root::ns_key(active),
                value: crate::root::target_namespace(variant),
            },
        ),
    decreases n,
{
    let x = crate::event::AttrModel { key: crate::root::ns_key(active), value: crate::root::target_namespace(variant) };
    let prev = crate::root::root_attrs_upto(attrs, prefix, active, variant, n - 1);
    let here = crate::root::root_attr_out(attrs[n - 1], prefix, active, variant);
    if i < n - 1 {
        lemma_root_attrs_contains(attrs, prefix, active, variant, n - 1, i);
        let k = choose|k: int| 0 <= k < prev.len() && prev[k] == x;
        assert((prev + here)[k] == x);
    } else {
        assert(here[0] == x);
        assert((prev + here)[prev.len() as int] == x);
    }
}

/// The output root declares the namespace of the variant under the prefix,
/// then the schema instance namespace and the schema location.
pub open spec fn root_declares(r: crate::event::TagModel, active: Seq<u8>, variant: FormVariant) -> bool {
    let n = r.attributes.len();
    &&& r.attributes.contains(crate::event::AttrModel {
        key: crate::root::ns_key(active),
        value: crate::root::target_namespace(variant),
    })
    &&& n >= 2
    &&& r.attributes[n - 2] == crate::event::AttrModel {
        key: "xmlns:xsi".spec_bytes(),
        value: crate::root::xsi_namespace(),
    }
    &&& r.attributes[n - 1] == crate::event::AttrModel {
        key: "xsi:schemaLocation".spec_bytes(),
        value: crate::root::schema_location(variant),
    }
}

pub proof fn lemma_first_keys_has_key(s: Seq<crate::event::AttrModel>, k: Seq<u8>)
    ensures
        crate::event::has_key(crate::event::first_keys(s), k) <==> crate::event::has_key(s, k),
    decreases s.len(),
{
    if s.len() > 0 {
        let d = s.drop_last();
        let a = s.last();
        let prev = crate::event::first_keys(d);
        let fk = crate::event::first_keys(s);
        lemma_first_keys_has_key(d, k);
        if crate::event::has_key(s, k) {
            let j = choose|j: int| 0 <= j < s.len() && (#[trigger] s[j]).key == k;
            if j < s.len() - 1 {
                assert(d[j] == s[j]);
                let i = choose|i: int| 0 <= i < prev.len() && (#[trigger] prev[i]).key == k;
                if !crate::event::has_key(prev, a.key) {
                    assert(fk[i] == prev[i]);
                }
            } else if !crate::event::has_key(prev, a.key) {
                assert(fk[prev.len() as int] == a);
            }
        }
        if crate::event::has_key(fk, k) {
            let j = choose|j: int| 0 <= j < fk.len() && (#[trigger] fk[j]).key == k;
            if j < prev.len() {
                assert(fk[j] == prev[j]);
                let i = choose|i: int| 0 <= i < d.len() && (#[trigger] d[i]).key == k;
                assert(s[i] == d[i]);
            } else {
                assert(s[s.len() - 1] == a);
            }
        }
    }
}

pub proof fn lemma_first_keys_keeps(s: Seq<crate::event::AttrModel>, x: crate::event::AttrModel)
    requires
        s.contains(x),
        forall|j: int| 0 <= j < s.len() && (#[trigger] s[j]).key == x.key ==> s[j] == x,
    ensures
        crate::event::first_keys(s).contains(x),
    decreases s.len(),
{
    let d = s.drop_last();
    let a = s.last();
    let prev = crate::event::first_keys(d);
    let fk = crate::event::first_keys(s);
    assert forall|j: int| 0 <= j < d.len() && (#[trigger] d[j]).key == x.key implies d[j] == x by {
        assert(d[j] == s[j]);
    }
    if a == x {
        if crate::event::has_key(prev, x.key) {
            lemma_first_keys_has_key(d, x.key);
            let j = choose|j: int| 0 <= j < d.len() && (#[trigger] d[j]).key == x.key;
            assert(d[j] == x);
            lemma_first_keys_keeps(d, x);
        } else {
            assert(fk[prev.len() as int] == x);
        }
    } else {
        let j = choose|j: int| 0 <= j < s.len() && s[j] == x;
        assert(j < s.len() - 1);
        assert(d[j] == x);
        lemma_first_keys_keeps(d, x);
        let i = choose|i: int| 0 <= i < prev.len() && prev[i] == x;
        if !crate::event::has_key(prev, a.key) {
            assert(fk[i] == prev[i]);
        }
    }
}

pub proof fn lemma_first_keys_append2(
    body: Seq<crate::event::AttrModel>,
    a: crate::event::AttrModel,
    b: crate::event::AttrModel,
)
    requires
        !crate::event::has_key(body, a.key),
        !crate::event::has_key(body, b.key),
        a.key != b.key,
    ensures
        crate::event::first_keys(body + seq![a, b]) == crate::event::first_keys(body) + seq![a, b],
{
    let s1 = body + seq![a];
    let s2 = body + seq![a, b];
    assert(s2.drop_last() =~= s1);
    assert(s1.drop_last() =~= body);
    lemma_first_keys_has_key(body, a.key);
    lemma_first_keys_has_key(s1, b.key);
    if crate::event::has_key(s1, b.key) {
        let j = choose|j: int| 0 <= j < s1.len() && (#[trigger] s1[j]).key == b.key;
        if j < body.len() {
            assert(s1[j] == body[j]);
        }
    }
    assert(crate::event::first_keys(s2) =~= crate::event::first_keys(body) + seq![a, b]);
}

pub proof fn lemma_key_literals()
    ensures
        "xmlns:etd".spec_bytes() != "xmlns:xsi".spec_bytes(),
        "xmlns:etd".spec_bytes() != "xsi:schemaLocation".spec_bytes(),
        "xmlns:xsi".spec_bytes() != "xsi:schemaLocation".spec_bytes(),
        forall|a: Seq<u8>| crate::root::ns_key(a) != "xsi:schemaLocation".spec_bytes(),
{
    broadcast use vstd::string::is_ascii_spec_bytes;
    reveal_strlit("xmlns:etd");
    reveal_strlit("xmlns:xsi");
    reveal_strlit("xsi:schemaLocation");
    reveal_strlit("xmlns");
    reveal_strlit("xmlns:");
    assert(vstd::string::is_ascii("xmlns:etd"));
    assert(vstd::string::is_ascii("xmlns:xsi"));
    assert(vstd::string::is_ascii("xsi:schemaLocation"));
    assert(vstd::string::is_ascii("xmlns"));
    assert(vstd::string::is_ascii("xmlns:"));
    assert("xmlns:etd".spec_bytes()[6] != "xmlns:xsi".spec_bytes()[6]);
    assert("xmlns:etd".spec_bytes()[1] != "xsi:schemaLocation".spec_bytes()[1]);
    assert("xmlns:xsi".spec_bytes()[1] != "xsi:schemaLocation".spec_bytes()[1]);
    assert forall|a: Seq<u8>| crate::root::ns_key(a) != "xsi:schemaLocation".spec_bytes() by {
        let k = crate::root::ns_key(a);
        if a.len() == 0 {
            assert(k[1] != "xsi:schemaLocation".spec_bytes()[1]);
        } else {
            assert(k[1] == "xmlns:".spec_bytes()[1]);
            assert(k[1] != "xsi:schemaLocation".spec_bytes()[1]);
        }
    }
}

pub proof fn lemma_root_body_keys(
    attrs: Seq<crate::event::AttrModel>,
    prefix: Seq<u8>,
    active: Seq<u8>,
    variant: FormVariant,
    n: int,
)
    requires
        0 <= n <= attrs.len(),
        forall|i: int|
            0 <= i < attrs.len() && !crate::root::is_ns_attr(#[trigger] attrs[i].key, prefix) ==> attrs[i].key
                != crate::root::ns_key(active),
        crate::root::ns_key(active) != "xmlns:xsi".spec_bytes(),
    ensures
        ({
            let body = crate::root::root_attrs_upto(attrs, prefix, active, variant, n);
            let x = crate::event::AttrModel {
                key: crate::root::ns_key(active),
                value: crate::root::target_namespace(variant),
            };
            &&& forall|j: int| 0 <= j < body.len() && (#[trigger] body[j]).key == x.key ==> body[j] == x
            &&& !crate::event::has_key(body, "xmlns:xsi".spec_bytes())
            &&& !crate::event::has_key(body, "xsi:schemaLocation".spec_bytes())
        }),
    decreases n,
{
    lemma_key_literals();
    if n > 0 {
        lemma_root_body_keys(attrs, prefix, active, variant, n - 1);
        let prev = crate::root::root_attrs_upto(attrs, prefix, active, variant, n - 1);
        let here = crate::root::root_attr_out(attrs[n - 1], prefix, active, variant);
        let body = prev + here;
        let x = crate::event::AttrModel { key: crate::root::ns_key(active), value: crate::root::target_namespace(variant) };
        assert(!crate::root::is_ns_attr(attrs[n - 1].key, prefix) ==> attrs[n - 1].key != x.key);
        assert forall|j: int| 0 <= j < body.len() && (#[trigger] body[j]).key == x.key implies body[j] == x by {
            if j < prev.len() {
                assert(body[j] == prev[j]);
            } else {
                assert(body[j] == here[j - prev.len()]);
            }
        }
        assert forall|k: Seq<u8>|
            k == "xmlns:xsi".spec_bytes() || k == "xsi:schemaLocation".spec_bytes() implies !crate::event::has_key(body, k) by {
            if crate::event::has_key(body, k) {
                let j = choose|j: int| 0 <= j < body.len() && (#[trigger] body[j]).key == k;
                if j < prev.len() {
                    assert(body[j] == prev[j]);
                } else {
                    assert(body[j] == here[j - prev.len()]);
                }
            }
        }
    }
}

/// The output root of a supported input declares the JPK_V7(3) namespace of
/// the output variant under the output prefix and points to its schema; an
/// input root without a supported namespace stops the conversion. The root's
/// attributes are taken as read (the first of each key). (When its other
/// attributes already use the key of the new declaration, or the output
/// prefix is `xsi`, the first attribute of each key is the one written.)
pub proof fn law_root_namespace(m: ConvModel, t: crate::event::TagModel)
    requires
        !m.has_checked_root,
        version_from_root(m),
        crate::names::local_name(t.name) == "JPK".spec_bytes(),
        ({
            let prefix = crate::names::name_prefix(t.name);
            let a = crate::event::first_keys(t.attributes);
            let active = match m.target_prefix {
                Some(p) => p,
                None => prefix,
            };
            &&& forall|i: int|
                0 <= i < a.len() && !crate::root::is_ns_attr(#[trigger] a[i].key, prefix)
                    ==> a[i].key != crate::root::ns_key(active)
            &&& crate::root::ns_key(active) != "xmlns:xsi".spec_bytes()
        }),
    ensures
        ({
            let s = step(m, EventModel::Start(t));
            let prefix = crate::names::name_prefix(t.name);
            &&& (s.error == Some(crate::converter::ConvertError::UnrecognizedNamespace)) == !declares_supported_ns(
                crate::event::first_keys(t.attributes),
                prefix,
            )
            &&& s.error is None ==> s.out.len() == 1 && match s.out[0] {
                OutputModel::Event(EventModel::Start(r)) => root_declares(r, crate::converter::active_prefix(s.state), s.state.variant),
                _ => false,
            }
        }),
{
    let s = step(m, EventModel::Start(t));
    let prefix = crate::names::name_prefix(t.name);
    let a = crate::event::first_keys(t.attributes);
    let var0 = if m.explicit_variant != FormVariant::Unknown { m.explicit_variant } else { m.variant };
    let init = crate::root::Detected { version: m.version, variant: var0 };
    lemma_detect_version(a, prefix, init, a.len() as int);
    if s.error is None {
        let var = s.state.variant;
        let active = crate::converter::active_prefix(s.state);
        let i = choose|i: int|
            0 <= i < a.len() && crate::root::is_ns_attr(#[trigger] a[i].key, prefix)
                && crate::root::ns_info(a[i].value) is Some;
        lemma_root_out_declares(t, a, prefix, active, var, i);
        match s.out[0] {
            OutputModel::Event(EventModel::Start(r)) => {
                assert(r == crate::root::root_tag_out(t, active, var));
            },
            _ => {},
        }
    }
}

/// The output root built from attributes `a` (the root's as read), one of
/// which declares its namespace, declares the output namespace and schema.
pub proof fn lemma_root_out_declares(
    t: crate::event::TagModel,
    a: Seq<crate::event::AttrModel>,
    prefix: Seq<u8>,
    active: Seq<u8>,
    var: FormVariant,
    i: int,
)
    requires
        a == crate::event::first_keys(t.attributes),
        prefix == crate::names::name_prefix(t.name),
        0 <= i < a.len(),
        crate::root::is_ns_attr(a[i].key, prefix),
        forall|j: int|
            0 <= j < a.len() && !crate::root::is_ns_attr(#[trigger] a[j].key, prefix) ==> a[j].key
                != crate::root::ns_key(active),
        crate::root::ns_key(active) != "xmlns:xsi".spec_bytes(),
    ensures
        root_declares(crate::root::root_tag_out(t, active, var), active, var),
{
    broadcast use vstd::utf8::encode_utf8_valid_utf8, vstd::utf8::valid_utf8_concat;
    reveal(crate::root::root_tag_out);
    lemma_schema_literals();
    lemma_key_literals();
    lemma_root_attrs_contains(a, prefix, active, var, a.len() as int, i);
    lemma_root_body_keys(a, prefix, active, var, a.len() as int);
    let x = crate::event::AttrModel { key: crate::root::ns_key(active), value: crate::root::target_namespace(var) };
    let xsi = crate::event::AttrModel { key: "xmlns:xsi".spec_bytes(), value: crate::root::xsi_namespace() };
    let loc = crate::event::AttrModel { key: "xsi:schemaLocation".spec_bytes(), value: crate::root::schema_location(var) };
    let body = crate::root::root_attrs_upto(a, prefix, active, var, a.len() as int);
    let all = crate::root::root_attrs(a, prefix, active, var);
    assert(all == body + seq![xsi, loc]);
    lemma_first_keys_append2(body, xsi, loc);
    lemma_first_keys_keeps(body, x);
    let kept = crate::event::first_keys(all);
    let fb = crate::event::first_keys(body);
    let k = choose|k: int| 0 <= k < fb.len() && fb[k] == x;
    assert(kept[k] == x);
    assert(vstd::utf8::valid_utf8("xmlns".spec_bytes()));
    assert(vstd::utf8::valid_utf8("xmlns:".spec_bytes()));
    assert(vstd::utf8::valid_utf8(crate::text::utf8_or_empty(active)));
    assert(vstd::utf8::valid_utf8(crate::root::ns_key(active)));
    assert(vstd::utf8::valid_utf8(crate::root::target_namespace(var)));
    let out_attrs = crate::event::rewritten_attrs(kept);
    assert(out_attrs[k] == x);
    assert(vstd::utf8::valid_utf8("xmlns:xsi".spec_bytes()));
    assert(vstd::utf8::valid_utf8("xsi:schemaLocation".spec_bytes()));
    assert(vstd::utf8::valid_utf8(crate::root::xsi_namespace()));
    assert(vstd::utf8::valid_utf8(crate::root::schema_location(var)));
    assert(kept[kept.len() - 2] == xsi);
    assert(kept[kept.len() - 1] == loc);
}


/// The element name `n` is a choice element (`DI`, `BFK`, `OFF`, `NrKSeF`) under `p`.
pub open spec fn is_choice_tag(p: Seq<u8>, n: Seq<u8>) -> bool {
    ||| n == crate::names::tag_name(p, "DI".spec_bytes())
    ||| n == crate::names::tag_name(p, "BFK".spec_bytes())
    ||| n == crate::names::tag_name(p, "OFF".spec_bytes())
    ||| n == crate::names::tag_name(p, "NrKSeF".spec_bytes())
}

/// 1 for a start or empty tag of a choice element under `p`, else 0.
pub open spec fn choice_weight(p: Seq<u8>, e: EventModel) -> nat {
    match e {
        EventModel::Start(t) => if is_choice_tag(p, t.name) { 1 } else { 0 },
        EventModel::Empty(t) => if is_choice_tag(p, t.name) { 1 } else { 0 },
        _ => 0,
    }
}

/// How many choice elements under `p` the events open.
pub open spec fn choice_count(p: Seq<u8>, evs: Seq<EventModel>) -> nat
    decreases evs.len(),
{
    if evs.len() == 0 {
        0
    } else {
        choice_count(p, evs.drop_last()) + choice_weight(p, evs.last())
    }
}

/// `part` occurs in `out` as a contiguous run.
pub open spec fn contains_run(out: Seq<EventModel>, part: Seq<EventModel>) -> bool {
    exists|k: int| 0 <= k && k + part.len() <= out.len() && #[trigger] out.subrange(k, k + part.len()) == part
}

pub proof fn lemma_run_extends(a: Seq<EventModel>, b: Seq<EventModel>, part: Seq<EventModel>)
    requires
        contains_run(a, part),
        a.len() <= b.len(),
        b.subrange(0, a.len() as int) == a,
    ensures
        contains_run(b, part),
{
    let k = choose|k: int| 0 <= k && k + part.len() <= a.len() && #[trigger] a.subrange(k, k + part.len()) == part;
    assert(b.subrange(k, k + part.len()) =~= a.subrange(k, k + part.len()));
}

pub proof fn lemma_run_at_end(a: Seq<EventModel>, part: Seq<EventModel>)
    ensures
        contains_run(a + part, part),
{
    assert((a + part).subrange(a.len() as int, (a.len() + part.len()) as int) =~= part);
}

pub proof fn lemma_choice_count_push(p: Seq<u8>, a: Seq<EventModel>, e: EventModel)
    ensures
        choice_count(p, a.push(e)) == choice_count(p, a) + choice_weight(p, e),
{
    assert(a.push(e).drop_last() =~= a);
}

pub proof fn lemma_choice_count_concat(p: Seq<u8>, a: Seq<EventModel>, b: Seq<EventModel>)
    ensures
        choice_count(p, a + b) == choice_count(p, a) + choice_count(p, b),
    decreases b.len(),
{
    if b.len() == 0 {
        assert(a + b =~= a);
    } else {
        assert((a + b).drop_last() =~= a + b.drop_last());
        lemma_choice_count_concat(p, a, b.drop_last());
    }
}

pub proof fn lemma_choice_literals()
    ensures
        vstd::utf8::valid_utf8("DI".spec_bytes()),
        vstd::utf8::valid_utf8("BFK".spec_bytes()),
        vstd::utf8::valid_utf8("OFF".spec_bytes()),
        vstd::utf8::valid_utf8("NrKSeF".spec_bytes()),
        "DI".spec_bytes().len() == 2,
        "BFK".spec_bytes().len() == 3,
        "OFF".spec_bytes().len() == 3,
        "NrKSeF".spec_bytes().len() == 6,
        "AdresKontrahenta".spec_bytes().len() == 16,
        "AdresDostawcy".spec_bytes().len() == 13,
{
    broadcast use vstd::string::is_ascii_spec_bytes, vstd::utf8::encode_utf8_valid_utf8;
    reveal_strlit("DI");
    reveal_strlit("BFK");
    reveal_strlit("OFF");
    reveal_strlit("NrKSeF");
    reveal_strlit("AdresKontrahenta");
    reveal_strlit("AdresDostawcy");
    assert(vstd::string::is_ascii("DI"));
    assert(vstd::string::is_ascii("BFK"));
    assert(vstd::string::is_ascii("OFF"));
    assert(vstd::string::is_ascii("NrKSeF"));
    assert(vstd::string::is_ascii("AdresKontrahenta"));
    assert(vstd::string::is_ascii("AdresDostawcy"));
}

pub proof fn lemma_tag_name_injective(p: Seq<u8>, x: Seq<u8>, y: Seq<u8>)
    requires
        crate::names::tag_name(p, x) == crate::names::tag_name(p, y),
    ensures
        x == y,
{
    if p.len() > 0 {
        let h = crate::text::lossy_text(p) + seq![58u8];
        assert(crate::names::tag_name(p, x) =~= h + x);
        assert(crate::names::tag_name(p, y) =~= h + y);
        assert((h + x).subrange(h.len() as int, (h + x).len() as int) =~= x);
        assert((h + y).subrange(h.len() as int, (h + y).len() as int) =~= y);
    }
}

/// A written element is a choice element exactly when its input name's local part is one.
pub proof fn lemma_renamed_choice(p: Seq<u8>, n: Seq<u8>)
    ensures
        is_choice_tag(p, crate::event::renamed(p, n)) == crate::row::is_choice_name(crate::names::local_name(n)),
{
    lemma_choice_literals();
    let l = crate::names::local_name(n);
    let u = crate::text::utf8_or_empty(l);
    assert(crate::event::renamed(p, n) == crate::names::tag_name(p, u));
    if is_choice_tag(p, crate::names::tag_name(p, u)) {
        if crate::names::tag_name(p, u) == crate::names::tag_name(p, "DI".spec_bytes()) {
            lemma_tag_name_injective(p, u, "DI".spec_bytes());
        } else if crate::names::tag_name(p, u) == crate::names::tag_name(p, "BFK".spec_bytes()) {
            lemma_tag_name_injective(p, u, "BFK".spec_bytes());
        } else if crate::names::tag_name(p, u) == crate::names::tag_name(p, "OFF".spec_bytes()) {
            lemma_tag_name_injective(p, u, "OFF".spec_bytes());
        } else {
            lemma_tag_name_injective(p, u, "NrKSeF".spec_bytes());
        }
        assert(u.len() > 0);
    }
}

pub proof fn lemma_choice_events_count(p: Seq<u8>, l: Seq<u8>)
    requires
        l == "DI".spec_bytes() || l == "BFK".spec_bytes(),
    ensures
        choice_count(p, crate::row::choice_events(p, l)) == 1,
{
    let c = crate::row::choice_events(p, l);
    let e = Seq::<EventModel>::empty();
    assert(c =~= e.push(c[0]).push(c[1]).push(c[2]));
    lemma_choice_count_push(p, e, c[0]);
    lemma_choice_count_push(p, e.push(c[0]), c[1]);
    lemma_choice_count_push(p, e.push(c[0]).push(c[1]), c[2]);
    assert(choice_count(p, e) == 0);
    assert(is_choice_tag(p, crate::names::tag_name(p, l)));
}

/// Walking all but the row's last event: the open address blocks are the
/// skip depth, the choice elements written are the row's own plus the one
/// injected, and one is injected exactly when the row has none of its own and
/// its last date element closes before this point.
pub proof fn lemma_row_walk_choices(buf: Seq<EventModel>, n: int, p: Seq<u8>, sales: bool)
    requires
        0 <= n < buf.len(),
    ensures
        ({
            let w = crate::row::row_walk(buf, n, p, sales);
            let ins = crate::row::insert_index(buf, sales);
            let part = crate::row::choice_events(p, crate::row::choice_local(buf, sales));
            &&& w.skip == crate::row::skip_depth(buf, n)
            &&& w.inserted == (0 < ins && ins < n && !crate::row::has_own_choice(buf))
            &&& choice_count(p, w.out) == crate::row::own_choices(buf, n) + if w.inserted { 1nat } else { 0nat }
            &&& w.inserted ==> contains_run(w.out, part)
        }),
    decreases n,
{
    if n > 0 {
        lemma_row_walk_choices(buf, n - 1, p, sales);
        lemma_choice_literals();
        let w = crate::row::row_walk(buf, n - 1, p, sales);
        let l = crate::row::choice_local(buf, sales);
        let c = crate::row::choice_events(p, l);
        let ins = crate::row::insert_index(buf, sales);
        let here = n - 1 == ins && ins > 0 && n < buf.len() && !crate::row::has_own_choice(buf);
        let w1 = if here { crate::row::WalkModel { out: w.out + c, inserted: true, ..w } } else { w };
        lemma_choice_events_count(p, l);
        lemma_choice_count_concat(p, w.out, c);
        if here {
            lemma_run_at_end(w.out, c);
        }
        let w2 = crate::row::row_event(w1, buf[n - 1], p);
        assert(w2 == crate::row::row_walk(buf, n, p, sales));
        match buf[n - 1] {
            EventModel::Start(t) => {
                lemma_renamed_choice(p, t.name);
                if !(crate::row::is_address_name(crate::names::local_name(t.name)) || w1.skip > 0) {
                    lemma_choice_count_push(p, w1.out, EventModel::Start(crate::event::rewritten_tag(p, t)));
                }
            },
            EventModel::Empty(t) => {
                lemma_renamed_choice(p, t.name);
                if !(crate::row::is_address_name(crate::names::local_name(t.name)) || w1.skip > 0) {
                    lemma_choice_count_push(p, w1.out, EventModel::Empty(crate::event::rewritten_tag(p, t)));
                }
            },
            EventModel::End(nm) => {
                if w1.skip == 0 {
                    lemma_choice_count_push(p, w1.out, EventModel::End(crate::event::renamed(p, nm)));
                }
            },
            other => {
                if w1.skip == 0 {
                    lemma_choice_count_push(p, w1.out, other);
                }
            },
        }
        if w2.inserted {
            assert(w2.out.len() >= w1.out.len() && w2.out.subrange(0, w1.out.len() as int) =~= w1.out);
            lemma_run_extends(w1.out, w2.out, c);
        }
    }
}

/// Walking a row that opens with a written element keeps that element first.
pub proof fn lemma_row_walk_first(buf: Seq<EventModel>, n: int, p: Seq<u8>, sales: bool, t: crate::event::TagModel)
    requires
        1 <= n <= buf.len(),
        buf[0] == EventModel::Start(t),
        !crate::row::is_address_name(crate::names::local_name(t.name)),
    ensures
        crate::row::row_walk(buf, n, p, sales).out.len() >= 1,
        crate::row::row_walk(buf, n, p, sales).out[0] == EventModel::Start(crate::event::rewritten_tag(p, t)),
    decreases n,
{
    let w = crate::row::row_walk(buf, n - 1, p, sales);
    let c = crate::row::choice_events(p, crate::row::choice_local(buf, sales));
    let ins = crate::row::insert_index(buf, sales);
    let here = n - 1 == ins && ins > 0 && n < buf.len() && !crate::row::has_own_choice(buf);
    let w1 = if here { crate::row::WalkModel { out: w.out + c, inserted: true, ..w } } else { w };
    let w2 = crate::row::row_event(w1, buf[n - 1], p);
    assert(w2 == crate::row::row_walk(buf, n, p, sales));
    if n > 1 {
        lemma_row_walk_first(buf, n - 1, p, sales, t);
        assert(w1.out[0] == w.out[0]);
    } else {
        assert(w.out.len() == 0 && w.skip == 0);
        assert(!here);
    }
    assert(w2.out.len() >= w1.out.len() && w2.out.len() >= 1);
    if w1.out.len() > 0 {
        assert(w2.out[0] == w1.out[0]);
    }
}

/// What comes before a row's last event as written: its first element, and
/// exactly one choice element (the injected one when the row has none).
pub proof fn lemma_row_head(buf: Seq<EventModel>, p: Seq<u8>, sales: bool, t: crate::event::TagModel)
    requires
        buf.len() >= 2,
        buf[0] == EventModel::Start(t),
        !crate::row::is_address_name(crate::names::local_name(t.name)),
        buf.last() is End,
        crate::row::own_choices(buf, buf.len() as int) <= 1,
    ensures
        ({
            let w = crate::row::row_walk(buf, buf.len() - 1, p, sales);
            let c = crate::row::choice_events(p, crate::row::choice_local(buf, sales));
            let mid = if crate::row::has_own_choice(buf) || w.inserted { w.out } else { w.out + c };
            &&& w.skip == crate::row::skip_depth(buf, buf.len() - 1)
            &&& mid.len() >= 1
            &&& mid[0] == EventModel::Start(crate::event::rewritten_tag(p, t))
            &&& choice_count(p, mid) == 1
            &&& !crate::row::has_own_choice(buf) ==> contains_run(mid, c)
        }),
{
    let n = buf.len() - 1;
    lemma_row_walk_choices(buf, n, p, sales);
    lemma_row_walk_first(buf, n, p, sales, t);
    let w = crate::row::row_walk(buf, n, p, sales);
    let l = crate::row::choice_local(buf, sales);
    let c = crate::row::choice_events(p, l);
    lemma_choice_literals();
    lemma_choice_events_count(p, l);
    lemma_choice_count_concat(p, w.out, c);
    let own = crate::row::has_own_choice(buf);
    if !own && !w.inserted {
        lemma_run_at_end(w.out, c);
        assert((w.out + c)[0] == w.out[0]);
    }
    assert(buf[n] == buf.last());
    assert(crate::row::own_choices(buf, buf.len() as int) == crate::row::own_choices(buf, n));
}

pub proof fn lemma_count_inside(p: Seq<u8>, first: EventModel, middle: Seq<EventModel>, last: EventModel)
    ensures
        choice_count(p, seq![first] + middle + seq![last]) == choice_weight(p, first) + choice_count(p, middle)
            + choice_weight(p, last),
{
    lemma_choice_count_concat(p, seq![first], middle);
    lemma_choice_count_concat(p, seq![first] + middle, seq![last]);
    let e = Seq::<EventModel>::empty();
    assert(seq![first] =~= e.push(first));
    assert(seq![last] =~= e.push(last));
    lemma_choice_count_push(p, e, first);
    lemma_choice_count_push(p, e, last);
}

/// A row ending in an end tag outside its address blocks is written as what
/// comes before that tag, then the tag under the prefix.
pub proof fn lemma_row_out(buf: Seq<EventModel>, p: Seq<u8>, sales: bool, e: Seq<u8>)
    requires
        buf.len() >= 1,
        buf.last() == EventModel::End(e),
        crate::row::skip_depth(buf, buf.len() - 1) == 0,
    ensures
        ({
            let w = crate::row::row_walk(buf, buf.len() - 1, p, sales);
            let c = crate::row::choice_events(p, crate::row::choice_local(buf, sales));
            let mid = if crate::row::has_own_choice(buf) || w.inserted { w.out } else { w.out + c };
            crate::row::row_output(buf, p, sales) == mid.push(EventModel::End(crate::event::renamed(p, e)))
        }),
{
    reveal(crate::row::row_output);
    lemma_row_walk_choices(buf, buf.len() - 1, p, sales);
}

/// A row is written with exactly one choice element between its start and
/// end tags: its own when it has one; else `<DI>1</DI>` (for `WEW` and `RO`
/// documents) or `<BFK>1</BFK>` is injected, after its last date element or,
/// when there is none, in front of its end tag. (A row holding two choice
/// elements of its own keeps both.)
pub proof fn law_row_has_one_choice(buf: Seq<EventModel>, p: Seq<u8>, sales: bool)
    requires
        buf.len() >= 2,
        buf[0] matches EventModel::Start(t) && !crate::row::is_address_name(crate::names::local_name(t.name))
            && !crate::row::is_choice_name(crate::names::local_name(t.name)),
        buf.last() is End,
        crate::row::skip_depth(buf, buf.len() - 1) == 0,
        crate::row::own_choices(buf, buf.len() as int) <= 1,
    ensures
        ({
            let out = crate::row::row_output(buf, p, sales);
            &&& out.len() >= 2
            &&& match buf[0] {
                EventModel::Start(t) => out[0] == EventModel::Start(crate::event::rewritten_tag(p, t)),
                _ => false,
            }
            &&& match buf.last() {
                EventModel::End(n) => out.last() == EventModel::End(crate::event::renamed(p, n)),
                _ => false,
            }
            &&& choice_count(p, out.subrange(1, out.len() - 1)) == 1
            &&& !crate::row::has_own_choice(buf) ==> contains_run(
                out,
                crate::row::choice_events(p, crate::row::choice_local(buf, sales)),
            )
        }),
        crate::row::choice_local(buf, sales) == if crate::row::uses_di(buf, sales) {
            "DI".spec_bytes()
        } else {
            "BFK".spec_bytes()
        },
{
    let t = match buf[0] {
        EventModel::Start(t) => t,
        _ => arbitrary(),
    };
    let e = match buf.last() {
        EventModel::End(e) => e,
        _ => arbitrary(),
    };
    lemma_row_head(buf, p, sales, t);
    lemma_row_out(buf, p, sales, e);
    let w = crate::row::row_walk(buf, buf.len() - 1, p, sales);
    let c = crate::row::choice_events(p, crate::row::choice_local(buf, sales));
    let mid = if crate::row::has_own_choice(buf) || w.inserted { w.out } else { w.out + c };
    let last = EventModel::End(crate::event::renamed(p, e));
    let first = EventModel::Start(crate::event::rewritten_tag(p, t));
    lemma_renamed_choice(p, t.name);
    lemma_row_ends(p, mid, first, last);
    if !crate::row::has_own_choice(buf) {
        lemma_run_extends(mid, mid.push(last), c);
    }
}

pub proof fn lemma_row_ends(p: Seq<u8>, mid: Seq<EventModel>, first: EventModel, last: EventModel)
    requires
        mid.len() >= 1,
        mid[0] == first,
        choice_count(p, mid) == 1,
        choice_weight(p, first) == 0,
        last is End,
    ensures
        ({
            let out = mid.push(last);
            &&& out.len() >= 2
            &&& out[0] == first
            &&& out.last() == last
            &&& choice_count(p, out.subrange(1, out.len() - 1)) == 1
            &&& out.subrange(0, mid.len() as int) == mid
        }),
{
    let out = mid.push(last);
    let middle = out.subrange(1, out.len() - 1);
    assert(out =~= seq![first] + middle + seq![last]);
    assert(out.subrange(0, mid.len() as int) =~= mid);
    lemma_count_inside(p, first, middle, last);
    lemma_choice_count_push(p, mid, last);
}


/// The block whose fields a taxpayer's output is built from: the person block,
/// else the company block, else the flat fields (where `NazwaPelna` may stand
/// for `PelnaNazwa`).
pub open spec fn subject_container(children: Seq<crate::group::ChildModel>) -> (Seq<crate::group::ChildModel>, bool) {
    match crate::group::find_child(children, "OsobaFizyczna".spec_bytes()) {
        Some(i) => (crate::group::children_of(children[i].events), false),
        None => match crate::group::find_child(children, "OsobaNiefizyczna".spec_bytes()) {
            Some(i) => (crate::group::children_of(children[i].events), false),
            None => (children, true),
        },
    }
}

/// The taxpayer's output always has an e-mail address: the input's, or the
/// placeholder `brak@adresu.email` when the input has none.
pub proof fn law_subject_has_email(children: Seq<crate::group::ChildModel>, v: FormVariant, p: Seq<u8>)
    ensures
        ({
            let (c, alias) = subject_container(children);
            let out = crate::subject::subject_output(children, v, p);
            &&& contains_run(out, crate::subject::person_field(c, "Email".spec_bytes(), alias, v, p))
            &&& crate::subject::find_field(c, "Email".spec_bytes(), alias) is None ==> contains_run(out, crate::subject::default_email(p))
        }),
{
    reveal(crate::subject::subject_output);
    reveal_with_fuel(crate::subject::person_fields, 7);
    let (c, alias) = subject_container(children);
    let out = crate::subject::subject_output(children, v, p);
    let email = crate::subject::person_field(c, "Email".spec_bytes(), alias, v, p);
    let fiz = crate::group::find_child(children, "OsobaFizyczna".spec_bytes()) is Some;
    let names = if fiz { crate::subject::natural_person_names() } else { crate::subject::company_names() };
    let local = if fiz { "OsobaFizyczna".spec_bytes() } else { "OsobaNiefizyczna".spec_bytes() };
    let fields = crate::subject::person_fields(c, names, alias, v, p);
    let before = crate::subject::person_fields(c, names.drop_last().drop_last(), alias, v, p);
    if fiz {
        assert(names.drop_last().drop_last() =~= seq!["NIP".spec_bytes(), "Imie".spec_bytes(), "Nazwisko".spec_bytes(), "DataUrodzenia".spec_bytes()]);
        assert(names.drop_last().last() == "Email".spec_bytes());
    } else {
        assert(names.drop_last().drop_last() =~= seq!["NIP".spec_bytes(), "PelnaNazwa".spec_bytes()]);
        assert(names.drop_last().last() == "Email".spec_bytes());
    }
    let after = crate::subject::person_field(c, names.last(), alias, v, p);
    assert(fields == before + email + after);
    let n = crate::names::tag_name(p, "Podmiot1".spec_bytes());
    let head = seq![
        EventModel::Start(crate::event::TagModel {
            name: n,
            attributes: seq![crate::event::AttrModel { key: "rola".spec_bytes(), value: "Podatnik".spec_bytes() }],
        }),
    ];
    let w = crate::subject::wrapped(p, local, fields);
    assert(out == head + w + seq![EventModel::End(n)]);
    let k: int = 2 + before.len() as int;
    assert(out.subrange(k, k + email.len() as int) =~= email);
}


pub proof fn lemma_form_code_literals()
    ensures
        crate::text::xml_escape(crate::mapped::kod_systemowy(FormVariant::K)) == crate::mapped::kod_systemowy(FormVariant::K),
        crate::text::xml_escape(crate::mapped::kod_systemowy(FormVariant::M)) == crate::mapped::kod_systemowy(FormVariant::M),
        crate::text::xml_escape("1-0E".spec_bytes()) == "1-0E".spec_bytes(),
{
    reveal_strlit("JPK_V7K (3)");
    reveal_strlit("JPK_V7M (3)");
    reveal_strlit("1-0E");
    lemma_plain_literal("JPK_V7K (3)");
    lemma_plain_literal("JPK_V7M (3)");
    lemma_plain_literal("1-0E");
}

pub proof fn lemma_distinct_names()
    ensures
        "KodFormularza".spec_bytes() != "CelZlozenia".spec_bytes(),
        "kodSystemowy".spec_bytes() != "wersjaSchemy".spec_bytes(),
{
    broadcast use vstd::string::is_ascii_spec_bytes;
    reveal_strlit("KodFormularza");
    reveal_strlit("CelZlozenia");
    reveal_strlit("kodSystemowy");
    reveal_strlit("wersjaSchemy");
    assert(is_ascii("KodFormularza"));
    assert(is_ascii("CelZlozenia"));
    assert(is_ascii("kodSystemowy"));
    assert(is_ascii("wersjaSchemy"));
    assert("KodFormularza".spec_bytes()[0] != "CelZlozenia".spec_bytes()[0]);
    assert("kodSystemowy".spec_bytes()[0] != "wersjaSchemy".spec_bytes()[0]);
}

/// The attributes of a form code start tag as written name the output form.
pub open spec fn names_output_form(attrs: Seq<crate::event::AttrModel>, variant: FormVariant) -> bool {
    &&& attrs.contains(crate::event::AttrModel { key: "kodSystemowy".spec_bytes(), value: crate::mapped::kod_systemowy(variant) })
    &&& attrs.contains(crate::event::AttrModel { key: "wersjaSchemy".spec_bytes(), value: "1-0E".spec_bytes() })
}

pub proof fn lemma_mapped_attrs_name_form(attrs: Seq<crate::event::AttrModel>, variant: FormVariant)
    ensures
        names_output_form(
            crate::event::rewritten_attrs(
                crate::event::first_keys(crate::mapped::mapped_attrs(attrs, variant, "KodFormularza".spec_bytes())),
            ),
            variant,
        ),
{
    broadcast use vstd::utf8::encode_utf8_valid_utf8;
    lemma_form_code_literals();
    lemma_distinct_names();
    let kf = "KodFormularza".spec_bytes();
    let mapped = crate::mapped::mapped_attrs(attrs, variant, kf);
    let kept = crate::event::first_keys(mapped);
    let out = crate::event::rewritten_attrs(kept);
    let kod = crate::event::AttrModel { key: "kodSystemowy".spec_bytes(), value: crate::mapped::kod_systemowy(variant) };
    let wer = crate::event::AttrModel { key: "wersjaSchemy".spec_bytes(), value: "1-0E".spec_bytes() };
    assert(vstd::utf8::valid_utf8(crate::mapped::kod_systemowy(variant)));
    assert(crate::event::rewritten_attr(kod) == kod);
    assert(crate::event::rewritten_attr(wer) == wer);
    let body = Seq::new(attrs.len(), |i: int| crate::mapped::replaced_attr(attrs[i], variant, kf));
    let e1 = if !crate::event::has_key(attrs, "kodSystemowy".spec_bytes()) { seq![kod] } else { Seq::empty() };
    let e2 = if !crate::event::has_key(attrs, "wersjaSchemy".spec_bytes()) { seq![wer] } else { Seq::empty() };
    let e3: Seq<crate::event::AttrModel> = Seq::empty();
    assert(mapped =~= body + e1 + e2 + e3);
    if crate::event::has_key(attrs, "kodSystemowy".spec_bytes()) {
        let j = choose|j: int| 0 <= j < attrs.len() && (#[trigger] attrs[j]).key == "kodSystemowy".spec_bytes();
        assert(mapped[j] == kod);
    } else {
        assert(mapped[body.len() as int] == kod);
    }
    if crate::event::has_key(attrs, "wersjaSchemy".spec_bytes()) {
        let j = choose|j: int| 0 <= j < attrs.len() && (#[trigger] attrs[j]).key == "wersjaSchemy".spec_bytes();
        if attrs[j].key == "kodSystemowy".spec_bytes() {
            assert(false);
        }
        assert(mapped[j] == wer);
    } else {
        assert(mapped[(body.len() + e1.len()) as int] == wer);
    }
    assert forall|j: int| 0 <= j < mapped.len() && (#[trigger] mapped[j]).key == kod.key implies mapped[j] == kod by {
        if j < body.len() {
            assert(mapped[j] == body[j]);
        } else if j < body.len() + e1.len() {
            assert(mapped[j] == kod);
        } else {
            assert(mapped[j] == wer);
        }
    }
    assert forall|j: int| 0 <= j < mapped.len() && (#[trigger] mapped[j]).key == wer.key implies mapped[j] == wer by {
        if j < body.len() {
            assert(mapped[j] == body[j]);
        } else if j < body.len() + e1.len() {
            assert(mapped[j] == kod);
        } else {
            assert(mapped[j] == wer);
        }
    }
    lemma_first_keys_keeps(mapped, kod);
    lemma_first_keys_keeps(mapped, wer);
    let k1 = choose|k: int| 0 <= k < kept.len() && kept[k] == kod;
    let k2 = choose|k: int| 0 <= k < kept.len() && kept[k] == wer;
    assert(out[k1] == kod);
    assert(out[k2] == wer);
}

/// The header written always begins with a form code that names the output
/// form (`kodSystemowy` of the variant, `wersjaSchemy="1-0E"`), whether the
/// input had one (as a start tag) or not.
pub proof fn law_header_names_form(children: Seq<crate::group::ChildModel>, variant: FormVariant, p: Seq<u8>)
    requires
        match crate::group::find_child(children, "KodFormularza".spec_bytes()) {
            Some(i) => children[i].events.len() > 0 && children[i].events[0] is Start,
            None => true,
        },
    ensures
        ({
            let h = crate::header::header_head(children, variant, p);
            h.len() > 1 && match h[1] {
                EventModel::Start(t) => names_output_form(t.attributes, variant),
                _ => false,
            }
        }),
{
    reveal(crate::header::header_head);
    crate::group::lemma_find_child(children, "KodFormularza".spec_bytes());
    match crate::group::find_child(children, "KodFormularza".spec_bytes()) {
        Some(i) => {
            match children[i].events[0] {
                EventModel::Start(t) => {
                    lemma_mapped_attrs_name_form(crate::event::first_keys(t.attributes), variant);
                },
                _ => {},
            }
        },
        None => {
            let d = crate::header::default_form_code(p, variant);
            let kod = crate::event::AttrModel { key: "kodSystemowy".spec_bytes(), value: crate::mapped::kod_systemowy(variant) };
            let wer = crate::event::AttrModel { key: "wersjaSchemy".spec_bytes(), value: "1-0E".spec_bytes() };
            match d[0] {
                EventModel::Start(t) => {
                    assert(t.attributes[0] == kod);
                    assert(t.attributes[1] == wer);
                },
                _ => {},
            }
        },
    }
}


// ---------------------------------------------------------------------------
// Element names under the output prefix

/// The element name `n` is `prefix:local` (or `local` for an empty prefix)
/// for some local part.
pub open spec fn under(p: Seq<u8>, n: Seq<u8>) -> bool {
    exists|l: Seq<u8>| n == #[trigger] crate::names::tag_name(p, l)
}

/// An event that names an element names it under `p`.
pub open spec fn event_under(p: Seq<u8>, e: EventModel) -> bool {
    match e {
        EventModel::Start(t) => under(p, t.name),
        EventModel::Empty(t) => under(p, t.name),
        EventModel::End(n) => under(p, n),
        _ => true,
    }
}

pub open spec fn all_under(p: Seq<u8>, evs: Seq<EventModel>) -> bool {
    forall|i: int| 0 <= i < evs.len() ==> event_under(p, #[trigger] evs[i])
}

/// An output names its elements under `p`; a control request is for `p`.
pub open spec fn output_under(p: Seq<u8>, o: OutputModel) -> bool {
    match o {
        OutputModel::Event(e) => event_under(p, e),
        OutputModel::Row(_) => true,
        OutputModel::Control(q) => q.prefix == p && under(p, q.tag),
    }
}

pub open spec fn outputs_under(p: Seq<u8>, out: Seq<OutputModel>) -> bool {
    forall|i: int| 0 <= i < out.len() ==> output_under(p, #[trigger] out[i])
}

pub proof fn lemma_renamed_under(p: Seq<u8>, n: Seq<u8>)
    ensures
        under(p, crate::event::renamed(p, n)),
{
    let l = crate::text::utf8_or_empty(crate::names::local_name(n));
    assert(crate::event::renamed(p, n) == crate::names::tag_name(p, l));
}

pub proof fn lemma_tag_name_under(p: Seq<u8>, l: Seq<u8>)
    ensures
        under(p, crate::names::tag_name(p, l)),
{
    assert(crate::names::tag_name(p, l) == crate::names::tag_name(p, l));
}

pub proof fn lemma_all_under_concat(p: Seq<u8>, a: Seq<EventModel>, b: Seq<EventModel>)
    requires
        all_under(p, a),
        all_under(p, b),
    ensures
        all_under(p, a + b),
{
    assert forall|i: int| 0 <= i < (a + b).len() implies event_under(p, #[trigger] (a + b)[i]) by {
        if i < a.len() {
            assert((a + b)[i] == a[i]);
        } else {
            assert((a + b)[i] == b[i - a.len()]);
        }
    }
}

pub proof fn lemma_text_element_under(p: Seq<u8>, l: Seq<u8>, x: Seq<u8>)
    ensures
        all_under(p, crate::event::text_element(p, l, x)),
{
    lemma_tag_name_under(p, l);
}

pub proof fn lemma_mapped_block_under(evs: Seq<EventModel>, v: FormVariant, p: Seq<u8>, name: Seq<u8>)
    ensures
        all_under(p, crate::mapped::mapped_block(evs, v, p, name)),
{
    let b = crate::mapped::mapped_block(evs, v, p, name);
    assert forall|i: int| 0 <= i < b.len() implies event_under(p, #[trigger] b[i]) by {
        match evs[i] {
            EventModel::Start(t) => lemma_renamed_under(p, t.name),
            EventModel::Empty(t) => lemma_renamed_under(p, t.name),
            EventModel::End(n) => lemma_renamed_under(p, n),
            _ => {},
        }
    }
}

pub proof fn lemma_events_out_under(p: Seq<u8>, evs: Seq<EventModel>)
    requires
        all_under(p, evs),
    ensures
        outputs_under(p, events_out(evs)),
{
    let o = events_out(evs);
    assert forall|i: int| 0 <= i < o.len() implies output_under(p, #[trigger] o[i]) by {
        assert(o[i] == OutputModel::Event(evs[i]));
    }
}

pub proof fn lemma_block_or_under(
    children: Seq<crate::group::ChildModel>,
    name: Seq<u8>,
    v: FormVariant,
    p: Seq<u8>,
    default: Seq<EventModel>,
)
    requires
        all_under(p, default),
    ensures
        all_under(p, crate::header::block_or(children, name, v, p, default)),
{
    match crate::group::find_child(children, name) {
        Some(i) => lemma_mapped_block_under(children[i].events, v, p, name),
        None => {},
    }
}

pub proof fn lemma_header_head_under(children: Seq<crate::group::ChildModel>, v: FormVariant, p: Seq<u8>)
    ensures
        all_under(p, crate::header::header_head(children, v, p)),
{
    reveal(crate::header::header_head);
    let open = seq![EventModel::Start(crate::event::TagModel {
        name: crate::names::tag_name(p, "Naglowek".spec_bytes()),
        attributes: Seq::empty(),
    })];
    lemma_tag_name_under(p, "Naglowek".spec_bytes());
    assert(all_under(p, open));
    let kf = crate::header::default_form_code(p, v);
    lemma_tag_name_under(p, "KodFormularza".spec_bytes());
    assert(all_under(p, kf));
    let wf = crate::event::text_element(p, "WariantFormularza".spec_bytes(), "3".spec_bytes());
    lemma_text_element_under(p, "WariantFormularza".spec_bytes(), "3".spec_bytes());
    let e = Seq::<EventModel>::empty();
    let b1 = crate::header::block_or(children, "KodFormularza".spec_bytes(), v, p, kf);
    let b2 = crate::header::block_or(children, "WariantFormularza".spec_bytes(), v, p, wf);
    let b3 = crate::header::block_or(children, "DataWytworzeniaJPK".spec_bytes(), v, p, e);
    let b4 = crate::header::block_or(children, "NazwaSystemu".spec_bytes(), v, p, e);
    let b5 = crate::header::block_or(children, "CelZlozenia".spec_bytes(), v, p, e);
    lemma_block_or_under(children, "KodFormularza".spec_bytes(), v, p, kf);
    lemma_block_or_under(children, "WariantFormularza".spec_bytes(), v, p, wf);
    lemma_block_or_under(children, "DataWytworzeniaJPK".spec_bytes(), v, p, e);
    lemma_block_or_under(children, "NazwaSystemu".spec_bytes(), v, p, e);
    lemma_block_or_under(children, "CelZlozenia".spec_bytes(), v, p, e);
    lemma_all_under_concat(p, open, b1);
    lemma_all_under_concat(p, open + b1, b2);
    lemma_all_under_concat(p, open + b1 + b2, b3);
    lemma_all_under_concat(p, open + b1 + b2 + b3, b4);
    lemma_all_under_concat(p, open + b1 + b2 + b3 + b4, b5);
}

pub proof fn lemma_header_output_under(
    children: Seq<crate::group::ChildModel>,
    v: FormVariant,
    kod: Option<Seq<u8>>,
    p: Seq<u8>,
)
    ensures
        all_under(p, crate::header::header_output(children, v, kod, p)),
{
    reveal(crate::header::header_output);
    let h = crate::header::header_head(children, v, p);
    lemma_header_head_under(children, v, p);
    let dk = crate::header::default_kod_urzedu(children, kod, p);
    let dr = crate::header::default_rok(children, p);
    let dm = crate::header::default_miesiac(children, p);
    lemma_text_element_under(p, "KodUrzedu".spec_bytes(), crate::text::xml_escape(crate::header::kod_urzedu_value(children, kod)));
    lemma_text_element_under(p, "Rok".spec_bytes(), crate::text::xml_escape(crate::header::rok_value(children)));
    lemma_text_element_under(p, "Miesiac".spec_bytes(), crate::text::xml_escape(crate::header::miesiac_value(children)));
    assert(all_under(p, dk));
    assert(all_under(p, dr));
    assert(all_under(p, dm));
    let b1 = crate::header::kod_urzedu_block(children, v, kod, p);
    let b2 = crate::header::block_or(children, "Rok".spec_bytes(), v, p, dr);
    let b3 = crate::header::block_or(children, "Miesiac".spec_bytes(), v, p, dm);
    lemma_block_or_under(children, "KodUrzedu".spec_bytes(), v, p, dk);
    match kod {
        Some(u) => lemma_text_element_under(p, "KodUrzedu".spec_bytes(), crate::text::xml_escape(u)),
        None => {},
    }
    lemma_block_or_under(children, "Rok".spec_bytes(), v, p, dr);
    lemma_block_or_under(children, "Miesiac".spec_bytes(), v, p, dm);
    let close = seq![EventModel::End(crate::names::tag_name(p, "Naglowek".spec_bytes()))];
    lemma_tag_name_under(p, "Naglowek".spec_bytes());
    assert(all_under(p, close));
    lemma_all_under_concat(p, h, b1);
    lemma_all_under_concat(p, h + b1, b2);
    lemma_all_under_concat(p, h + b1 + b2, b3);
    lemma_all_under_concat(p, h + b1 + b2 + b3, close);
}


pub proof fn lemma_person_fields_under(
    children: Seq<crate::group::ChildModel>,
    names: Seq<Seq<u8>>,
    alias: bool,
    v: FormVariant,
    p: Seq<u8>,
)
    ensures
        all_under(p, crate::subject::person_fields(children, names, alias, v, p)),
    decreases names.len(),
{
    if names.len() > 0 {
        lemma_person_fields_under(children, names.drop_last(), alias, v, p);
        let name = names.last();
        match crate::subject::find_field(children, name, alias) {
            Some(i) => lemma_mapped_block_under(children[i].events, v, p, name),
            None => lemma_text_element_under(p, "Email".spec_bytes(), "brak@adresu.email".spec_bytes()),
        }
        lemma_all_under_concat(
            p,
            crate::subject::person_fields(children, names.drop_last(), alias, v, p),
            crate::subject::person_field(children, name, alias, v, p),
        );
    }
}

pub proof fn lemma_wrapped_under(p: Seq<u8>, l: Seq<u8>, inner: Seq<EventModel>)
    requires
        all_under(p, inner),
    ensures
        all_under(p, crate::subject::wrapped(p, l, inner)),
{
    let n = crate::names::tag_name(p, l);
    lemma_tag_name_under(p, l);
    let open = seq![EventModel::Start(crate::event::TagModel { name: n, attributes: Seq::empty() })];
    let close = seq![EventModel::End(n)];
    assert(all_under(p, open));
    assert(all_under(p, close));
    lemma_all_under_concat(p, open, inner);
    lemma_all_under_concat(p, open + inner, close);
}

pub proof fn lemma_subject_output_under(children: Seq<crate::group::ChildModel>, v: FormVariant, p: Seq<u8>)
    ensures
        all_under(p, crate::subject::subject_output(children, v, p)),
{
    reveal(crate::subject::subject_output);
    let n = crate::names::tag_name(p, "Podmiot1".spec_bytes());
    lemma_tag_name_under(p, "Podmiot1".spec_bytes());
    let inner = match crate::group::find_child(children, "OsobaFizyczna".spec_bytes()) {
        Some(i) => {
            let c = crate::group::children_of(children[i].events);
            let f = crate::subject::person_fields(c, crate::subject::natural_person_names(), false, v, p);
            lemma_person_fields_under(c, crate::subject::natural_person_names(), false, v, p);
            lemma_wrapped_under(p, "OsobaFizyczna".spec_bytes(), f);
            crate::subject::wrapped(p, "OsobaFizyczna".spec_bytes(), f)
        },
        None => match crate::group::find_child(children, "OsobaNiefizyczna".spec_bytes()) {
            Some(i) => {
                let c = crate::group::children_of(children[i].events);
                let f = crate::subject::person_fields(c, crate::subject::company_names(), false, v, p);
                lemma_person_fields_under(c, crate::subject::company_names(), false, v, p);
                lemma_wrapped_under(p, "OsobaNiefizyczna".spec_bytes(), f);
                crate::subject::wrapped(p, "OsobaNiefizyczna".spec_bytes(), f)
            },
            None => {
                let f = crate::subject::person_fields(children, crate::subject::company_names(), true, v, p);
                lemma_person_fields_under(children, crate::subject::company_names(), true, v, p);
                lemma_wrapped_under(p, "OsobaNiefizyczna".spec_bytes(), f);
                crate::subject::wrapped(p, "OsobaNiefizyczna".spec_bytes(), f)
            },
        },
    };
    let open = seq![EventModel::Start(crate::event::TagModel {
        name: n,
        attributes: seq![crate::event::AttrModel { key: "rola".spec_bytes(), value: "Podatnik".spec_bytes() }],
    })];
    let close = seq![EventModel::End(n)];
    assert(all_under(p, open));
    assert(all_under(p, close));
    lemma_all_under_concat(p, open, inner);
    lemma_all_under_concat(p, open + inner, close);
}

pub proof fn lemma_choice_under(p: Seq<u8>, l: Seq<u8>)
    ensures
        all_under(p, crate::row::choice_events(p, l)),
{
    lemma_tag_name_under(p, l);
}

pub proof fn lemma_row_event_under(w: crate::row::WalkModel, ev: EventModel, p: Seq<u8>)
    requires
        all_under(p, w.out),
    ensures
        all_under(p, crate::row::row_event(w, ev, p).out),
{
    match ev {
        EventModel::Start(t) => lemma_renamed_under(p, t.name),
        EventModel::Empty(t) => lemma_renamed_under(p, t.name),
        EventModel::End(nm) => lemma_renamed_under(p, nm),
        _ => {},
    }
    let w2 = crate::row::row_event(w, ev, p);
    assert forall|i: int| 0 <= i < w2.out.len() implies event_under(p, #[trigger] w2.out[i]) by {
        if i < w.out.len() {
            assert(w2.out[i] == w.out[i]);
        }
    }
}

pub proof fn lemma_row_walk_under(buf: Seq<EventModel>, n: int, p: Seq<u8>, sales: bool)
    requires
        n <= buf.len(),
    ensures
        all_under(p, crate::row::row_walk(buf, n, p, sales).out),
    decreases n,
{
    if n > 0 {
        lemma_row_walk_under(buf, n - 1, p, sales);
        let w = crate::row::row_walk(buf, n - 1, p, sales);
        let c = crate::row::choice_events(p, crate::row::choice_local(buf, sales));
        lemma_choice_under(p, crate::row::choice_local(buf, sales));
        lemma_all_under_concat(p, w.out, c);
        let ins = crate::row::insert_index(buf, sales);
        let here = n - 1 == ins && ins > 0 && n < buf.len() && !crate::row::has_own_choice(buf);
        let w1 = if here { crate::row::WalkModel { out: w.out + c, inserted: true, ..w } } else { w };
        lemma_row_event_under(w1, buf[n - 1], p);
    }
}

pub proof fn lemma_row_output_under(buf: Seq<EventModel>, p: Seq<u8>, sales: bool)
    ensures
        all_under(p, crate::row::row_output(buf, p, sales)),
{
    reveal(crate::row::row_output);
    let c = crate::row::choice_events(p, crate::row::choice_local(buf, sales));
    lemma_choice_under(p, crate::row::choice_local(buf, sales));
    if buf.len() > 0 {
        lemma_row_walk_under(buf, buf.len() - 1, p, sales);
        let w = crate::row::row_walk(buf, buf.len() - 1, p, sales);
        lemma_all_under_concat(p, w.out, c);
        let mid = if crate::row::has_own_choice(buf) || w.inserted { w.out } else { w.out + c };
        lemma_row_event_under(crate::row::WalkModel { out: mid, skip: w.skip, inserted: true }, buf.last(), p);
    }
}


/// A control section is written under the prefix of its request.
pub proof fn law_control_block_under_prefix(q: crate::control::ControlRequestModel, total2: Seq<u8>, total1: Seq<u8>)
    requires
        under(q.prefix, q.tag),
    ensures
        all_under(q.prefix, crate::control::control_events(q, total2, total1)),
{
    let p = q.prefix;
    let open = EventModel::Start(crate::event::TagModel { name: q.tag, attributes: Seq::empty() });
    let close = EventModel::End(q.tag);
    if q.kind == crate::control::CtrlKind::Other {
        assert(all_under(p, seq![open, close]));
    } else {
        let disc = crate::control::discrepancy(q.old_value, total2, total1);
        let msg = crate::control::warning_message(q.kind, q.old_value, total2);
        let comment = if disc {
            seq![EventModel::Comment(crate::text::xml_escape(" ".spec_bytes() + msg + " ".spec_bytes()))]
        } else {
            Seq::empty()
        };
        let value = if disc { q.old_value } else { total2 };
        let c = crate::event::text_element(p, crate::control::count_name(q.kind), crate::text::decimal(q.count));
        let t = crate::event::text_element(p, crate::control::total_name(q.kind), crate::text::xml_escape(value));
        lemma_text_element_under(p, crate::control::count_name(q.kind), crate::text::decimal(q.count));
        lemma_text_element_under(p, crate::control::total_name(q.kind), crate::text::xml_escape(value));
        assert(all_under(p, seq![open]));
        assert(all_under(p, seq![close]));
        assert(all_under(p, comment));
        lemma_all_under_concat(p, seq![open], c);
        lemma_all_under_concat(p, seq![open] + c, comment);
        lemma_all_under_concat(p, seq![open] + c + comment, t);
        lemma_all_under_concat(p, seq![open] + c + comment + t, seq![close]);
    }
}

pub proof fn lemma_outputs_under_concat(p: Seq<u8>, a: Seq<OutputModel>, b: Seq<OutputModel>)
    requires
        outputs_under(p, a),
        outputs_under(p, b),
    ensures
        outputs_under(p, a + b),
{
    assert forall|i: int| 0 <= i < (a + b).len() implies output_under(p, #[trigger] (a + b)[i]) by {
        if i < a.len() {
            assert((a + b)[i] == a[i]);
        } else {
            assert((a + b)[i] == b[i - a.len()]);
        }
    }
}

proof fn lemma_start_step_under(m: ConvModel, t: crate::event::TagModel)
    ensures
        outputs_under(crate::converter::active_prefix(start_step(m, t).state), start_step(m, t).out),
{
    let local = crate::names::local_name(t.name);
    let s = start_step(m, t);
    if !m.has_checked_root && local == "JPK".spec_bytes() {
        let r = root_step(m, t);
        if r.error is None {
            reveal(crate::root::root_tag_out);
            lemma_renamed_under(crate::converter::active_prefix(r.state), t.name);
        }
    } else {
        let p = crate::converter::active_prefix(m);
        assert(crate::converter::active_prefix(s.state) == p);
        lemma_tag_name_under(p, "Ewidencja".spec_bytes());
        lemma_renamed_under(p, t.name);
    }
}

proof fn lemma_end_step_under(m: ConvModel, n: Seq<u8>)
    ensures
        outputs_under(crate::converter::active_prefix(end_step(m, n).state), end_step(m, n).out),
{
    let local = crate::names::local_name(n);
    let ev = EventModel::End(n);
    let p = crate::converter::active_prefix(m);
    let s = end_step(m, n);
    assert(crate::converter::active_prefix(s.state) == p);
    if m.inside_ctrl {
        let buf = m.ctrl_buffer.push(ev);
        reveal(crate::control::control_request);
        if buf.len() > 0 {
            match buf[0] {
                EventModel::Start(t) => lemma_renamed_under(p, t.name),
                _ => {},
            }
        }
    } else if m.inside_naglowek {
        let buf = m.naglowek_buffer.push(ev);
        let children = crate::group::children_of(buf);
        let var = crate::header::header_variant(children, m.explicit_variant, m.variant);
        lemma_header_head_under(children, var, p);
        lemma_header_output_under(children, var, m.kod_urzedu, p);
        lemma_events_out_under(p, crate::header::header_head(children, var, p));
        lemma_events_out_under(p, crate::header::header_output(children, var, m.kod_urzedu, p));
    } else if m.inside_podmiot {
        let buf = m.podmiot_buffer.push(ev);
        let children = crate::group::children_of(buf);
        lemma_subject_output_under(children, m.variant, p);
        lemma_events_out_under(p, crate::subject::subject_output(children, m.variant, p));
    } else if (local == "SprzedazWiersz".spec_bytes() && m.inside_sales) || (local
        == "ZakupWiersz".spec_bytes() && m.inside_purchase) {
        let sales = local == "SprzedazWiersz".spec_bytes() && m.inside_sales;
        let buf = if sales { m.sales_buffer.push(ev) } else { m.purchase_buffer.push(ev) };
        let r = row_end_step(m, buf, sales);
        let counted = !crate::row::is_fp(buf, sales);
        let report = crate::converter::RowReportModel {
            sales,
            counted,
            amounts: crate::row::row_amounts(buf, sales),
        };
        let head = seq![OutputModel::Row(report)];
        let rows = crate::row::row_output(buf, p, sales);
        lemma_row_output_under(buf, p, sales);
        lemma_events_out_under(p, rows);
        assert(outputs_under(p, head));
        lemma_outputs_under_concat(p, head, events_out(rows));
        assert(s == r);
    } else {
        lemma_tag_name_under(p, "Ewidencja".spec_bytes());
        lemma_renamed_under(p, n);
    }
}

/// Every element that a step writes is named under the output prefix (the
/// caller's, else the input root's), and every control section that it asks
/// for is to be written under that prefix.
pub proof fn law_step_writes_under_prefix(m: ConvModel, ev: EventModel)
    ensures
        outputs_under(crate::converter::active_prefix(step(m, ev).state), step(m, ev).out),
{
    match ev {
        EventModel::Start(t) => lemma_start_step_under(m, t),
        EventModel::End(n) => lemma_end_step_under(m, n),
        EventModel::Empty(t) => lemma_renamed_under(crate::converter::active_prefix(m), t.name),
        _ => {},
    }
}


/// A non-empty tax office code given by the caller is the one written, in
/// place of any the input has: the header holds its head, then exactly
/// `<KodUrzedu>code</KodUrzedu>`, then the year and the month; and no code
/// is then missing.
pub proof fn law_caller_office_code(
    children: Seq<crate::group::ChildModel>,
    v: FormVariant,
    u: Seq<u8>,
    p: Seq<u8>,
    version: FormVersion,
)
    requires
        u.len() > 0,
    ensures
        crate::header::header_output(children, v, Some(u), p) == crate::header::header_head(children, v, p)
            + crate::event::text_element(p, "KodUrzedu".spec_bytes(), crate::text::xml_escape(u))
            + crate::header::block_or(children, "Rok".spec_bytes(), v, p, crate::header::default_rok(children, p))
            + crate::header::block_or(children, "Miesiac".spec_bytes(), v, p, crate::header::default_miesiac(children, p))
            + seq![EventModel::End(crate::names::tag_name(p, "Naglowek".spec_bytes()))],
        !crate::header::kod_urzedu_missing(children, Some(u), version),
{
    reveal(crate::header::header_output);
}


/// The bytes of the amount codes that the control totals are made of.
pub proof fn lemma_control_code_bytes()
    ensures
        "K_16".spec_bytes().len() == 4 && "K_16".spec_bytes()[2] == 49u8 && "K_16".spec_bytes()[3] == 54u8,
        "K_18".spec_bytes().len() == 4 && "K_18".spec_bytes()[2] == 49u8 && "K_18".spec_bytes()[3] == 56u8,
        "K_20".spec_bytes().len() == 4 && "K_20".spec_bytes()[2] == 50u8 && "K_20".spec_bytes()[3] == 48u8,
        "K_24".spec_bytes().len() == 4 && "K_24".spec_bytes()[2] == 50u8 && "K_24".spec_bytes()[3] == 52u8,
        "K_26".spec_bytes().len() == 4 && "K_26".spec_bytes()[2] == 50u8 && "K_26".spec_bytes()[3] == 54u8,
        "K_28".spec_bytes().len() == 4 && "K_28".spec_bytes()[2] == 50u8 && "K_28".spec_bytes()[3] == 56u8,
        "K_30".spec_bytes().len() == 4 && "K_30".spec_bytes()[2] == 51u8 && "K_30".spec_bytes()[3] == 48u8,
        "K_32".spec_bytes().len() == 4 && "K_32".spec_bytes()[2] == 51u8 && "K_32".spec_bytes()[3] == 50u8,
        "K_33".spec_bytes().len() == 4 && "K_33".spec_bytes()[2] == 51u8 && "K_33".spec_bytes()[3] == 51u8,
        "K_34".spec_bytes().len() == 4 && "K_34".spec_bytes()[2] == 51u8 && "K_34".spec_bytes()[3] == 52u8,
        "K_35".spec_bytes().len() == 4 && "K_35".spec_bytes()[2] == 51u8 && "K_35".spec_bytes()[3] == 53u8,
        "K_36".spec_bytes().len() == 4 && "K_36".spec_bytes()[2] == 51u8 && "K_36".spec_bytes()[3] == 54u8,
        "K_360".spec_bytes().len() == 5 && "K_360".spec_bytes()[2] == 51u8 && "K_360".spec_bytes()[3] == 54u8 && "K_360".spec_bytes()[4] == 48u8,
        "K_41".spec_bytes().len() == 4 && "K_41".spec_bytes()[2] == 52u8 && "K_41".spec_bytes()[3] == 49u8,
        "K_43".spec_bytes().len() == 4 && "K_43".spec_bytes()[2] == 52u8 && "K_43".spec_bytes()[3] == 51u8,
        "K_44".spec_bytes().len() == 4 && "K_44".spec_bytes()[2] == 52u8 && "K_44".spec_bytes()[3] == 52u8,
        "K_45".spec_bytes().len() == 4 && "K_45".spec_bytes()[2] == 52u8 && "K_45".spec_bytes()[3] == 53u8,
        "K_46".spec_bytes().len() == 4 && "K_46".spec_bytes()[2] == 52u8 && "K_46".spec_bytes()[3] == 54u8,
        "K_47".spec_bytes().len() == 4 && "K_47".spec_bytes()[2] == 52u8 && "K_47".spec_bytes()[3] == 55u8,
{
    broadcast use vstd::string::is_ascii_spec_bytes;
    reveal_strlit("K_16");
    assert(vstd::string::is_ascii("K_16"));
    reveal_strlit("K_18");
    assert(vstd::string::is_ascii("K_18"));
    reveal_strlit("K_20");
    assert(vstd::string::is_ascii("K_20"));
    reveal_strlit("K_24");
    assert(vstd::string::is_ascii("K_24"));
    reveal_strlit("K_26");
    assert(vstd::string::is_ascii("K_26"));
    reveal_strlit("K_28");
    assert(vstd::string::is_ascii("K_28"));
    reveal_strlit("K_30");
    assert(vstd::string::is_ascii("K_30"));
    reveal_strlit("K_32");
    assert(vstd::string::is_ascii("K_32"));
    reveal_strlit("K_33");
    assert(vstd::string::is_ascii("K_33"));
    reveal_strlit("K_34");
    assert(vstd::string::is_ascii("K_34"));
    reveal_strlit("K_35");
    assert(vstd::string::is_ascii("K_35"));
    reveal_strlit("K_36");
    assert(vstd::string::is_ascii("K_36"));
    reveal_strlit("K_360");
    assert(vstd::string::is_ascii("K_360"));
    reveal_strlit("K_41");
    assert(vstd::string::is_ascii("K_41"));
    reveal_strlit("K_43");
    assert(vstd::string::is_ascii("K_43"));
    reveal_strlit("K_44");
    assert(vstd::string::is_ascii("K_44"));
    reveal_strlit("K_45");
    assert(vstd::string::is_ascii("K_45"));
    reveal_strlit("K_46");
    assert(vstd::string::is_ascii("K_46"));
    reveal_strlit("K_47");
    assert(vstd::string::is_ascii("K_47"));
}

/// Each VAT amount field goes to its own control accumulator: in a row that
/// is not `FP`, `K_16`, `K_18`, `K_20`, `K_24` to `K_34` (added to the sales
/// total) and `K_35`, `K_36`, `K_360` (subtracted from it); in any row,
/// `K_41` and `K_43` to `K_47` (the purchase total). Sales fields of an `FP`
/// row go to none.
pub proof fn law_control_fields(sales: bool, fp: bool)
    ensures
        crate::row::role_of("K_16".spec_bytes(), sales, fp).control == if fp { ControlField::Neither } else { ControlField::K16 },
        crate::row::role_of("K_18".spec_bytes(), sales, fp).control == if fp { ControlField::Neither } else { ControlField::K18 },
        crate::row::role_of("K_20".spec_bytes(), sales, fp).control == if fp { ControlField::Neither } else { ControlField::K20 },
        crate::row::role_of("K_24".spec_bytes(), sales, fp).control == if fp { ControlField::Neither } else { ControlField::K24 },
        crate::row::role_of("K_26".spec_bytes(), sales, fp).control == if fp { ControlField::Neither } else { ControlField::K26 },
        crate::row::role_of("K_28".spec_bytes(), sales, fp).control == if fp { ControlField::Neither } else { ControlField::K28 },
        crate::row::role_of("K_30".spec_bytes(), sales, fp).control == if fp { ControlField::Neither } else { ControlField::K30 },
        crate::row::role_of("K_32".spec_bytes(), sales, fp).control == if fp { ControlField::Neither } else { ControlField::K32 },
        crate::row::role_of("K_33".spec_bytes(), sales, fp).control == if fp { ControlField::Neither } else { ControlField::K33 },
        crate::row::role_of("K_34".spec_bytes(), sales, fp).control == if fp { ControlField::Neither } else { ControlField::K34 },
        crate::row::role_of("K_35".spec_bytes(), sales, fp).control == if fp { ControlField::Neither } else { ControlField::K35 },
        crate::row::role_of("K_36".spec_bytes(), sales, fp).control == if fp { ControlField::Neither } else { ControlField::K36 },
        crate::row::role_of("K_360".spec_bytes(), sales, fp).control == if fp { ControlField::Neither } else { ControlField::K360 },
        crate::row::role_of("K_41".spec_bytes(), sales, fp).control == ControlField::K41,
        crate::row::role_of("K_43".spec_bytes(), sales, fp).control == ControlField::K43,
        crate::row::role_of("K_44".spec_bytes(), sales, fp).control == ControlField::K44,
        crate::row::role_of("K_45".spec_bytes(), sales, fp).control == ControlField::K45,
        crate::row::role_of("K_46".spec_bytes(), sales, fp).control == ControlField::K46,
        crate::row::role_of("K_47".spec_bytes(), sales, fp).control == ControlField::K47,
{
    lemma_control_code_bytes();
}


/// A `NIP` element holding one text `x`: its start tag, the text, its end tag.
pub open spec fn nip_element_holds(evs: Seq<EventModel>, x: Seq<u8>) -> bool {
    &&& evs.len() == 3
    &&& evs[0] is Start
    &&& evs[1] == EventModel::Text(x)
    &&& evs[2] is End
}

pub proof fn lemma_nip_text(cur: Option<Seq<u8>>, evs: Seq<EventModel>, x: Seq<u8>)
    requires
        nip_element_holds(evs, x),
    ensures
        crate::subject::captured(cur, evs) == Some(crate::text::trimmed(crate::text::lossy_text(x))),
{
    let d = evs.drop_last();
    assert(d.last() == EventModel::Text(x));
    assert(!(evs.last() is Text));
    assert(crate::subject::captured(cur, evs) == crate::subject::captured(cur, d));
    assert(crate::subject::captured(cur, d) == Some(crate::text::text_value(x)));
}

/// With no `NIP` of its own, a taxpayer block takes the `NIP` of its person
/// block (`OsobaFizyczna`), or, when it has none, of its company block
/// (`OsobaNiefizyczna`): the NIP found is that element's text, decoded and
/// trimmed.
pub proof fn law_nested_nip(children: Seq<crate::group::ChildModel>, i: int, j: int, x: Seq<u8>)
    requires
        crate::group::find_child(children, "NIP".spec_bytes()) is None,
        crate::group::find_child(children, "OsobaFizyczna".spec_bytes()) == Some(i)
            || (crate::group::find_child(children, "OsobaFizyczna".spec_bytes()) is None
            && crate::group::find_child(children, "OsobaNiefizyczna".spec_bytes()) == Some(i)),
        crate::group::find_child(crate::group::children_of(children[i].events), "NIP".spec_bytes()) == Some(j),
        nip_element_holds(crate::group::children_of(children[i].events)[j].events, x),
    ensures
        crate::subject::subject_nip(children, None) == Some(crate::text::trimmed(crate::text::lossy_text(x))),
{
    reveal(crate::subject::subject_nip);
    lemma_nip_text(None, crate::group::children_of(children[i].events)[j].events, x);
}


/// A date element of a sales (`DataWystawienia`, `DataSprzedazy`) or purchase
/// (`DataZakupu`, `DataWplywu`) row, by its local name.
pub open spec fn is_date_local(l: Seq<u8>, sales: bool) -> bool {
    if sales {
        l == "DataWystawienia".spec_bytes() || l == "DataSprzedazy".spec_bytes()
    } else {
        l == "DataZakupu".spec_bytes() || l == "DataWplywu".spec_bytes()
    }
}

/// An input end tag of a date element.
pub open spec fn is_date_end_in(e: EventModel, sales: bool) -> bool {
    e matches EventModel::End(n) && is_date_local(crate::names::local_name(n), sales)
}

/// A written end tag of a date element under the prefix `p`.
pub open spec fn is_date_end_out(p: Seq<u8>, e: EventModel, sales: bool) -> bool {
    e matches EventModel::End(n) && if sales {
        n == crate::names::tag_name(p, "DataWystawienia".spec_bytes()) || n == crate::names::tag_name(
            p,
            "DataSprzedazy".spec_bytes(),
        )
    } else {
        n == crate::names::tag_name(p, "DataZakupu".spec_bytes()) || n == crate::names::tag_name(
            p,
            "DataWplywu".spec_bytes(),
        )
    }
}

/// The insertion point of a row is one past its last date end tag (0 when it
/// has none): no date end tag stands at or after it.
pub proof fn lemma_insert_after_last_date(buf: Seq<EventModel>, sales: bool)
    ensures
        0 <= crate::row::insert_index(buf, sales) <= buf.len(),
        crate::row::insert_index(buf, sales) > 0 ==> is_date_end_in(
            buf[crate::row::insert_index(buf, sales) - 1],
            sales,
        ),
        forall|j: int|
            crate::row::insert_index(buf, sales) <= j < buf.len() ==> !is_date_end_in(#[trigger] buf[j], sales),
    decreases buf.len(),
{
    if buf.len() > 0 {
        let d = buf.drop_last();
        lemma_insert_after_last_date(d, sales);
        assert forall|j: int|
            crate::row::insert_index(buf, sales) <= j < buf.len() implies !is_date_end_in(#[trigger] buf[j], sales) by {
            if j < d.len() {
                assert(buf[j] == d[j]);
            }
        }
        if crate::row::insert_index(buf, sales) > 0 && crate::row::insert_index(buf, sales) < buf.len() {
            assert(buf[crate::row::insert_index(buf, sales) - 1] == d[crate::row::insert_index(buf, sales) - 1]);
        }
    }
}

pub proof fn lemma_date_literals()
    ensures
        "DataWystawienia".spec_bytes().len() == 15,
        "DataSprzedazy".spec_bytes().len() == 13,
        "DataZakupu".spec_bytes().len() == 10,
        "DataWplywu".spec_bytes().len() == 10,
        vstd::utf8::valid_utf8("DataWystawienia".spec_bytes()),
        vstd::utf8::valid_utf8("DataSprzedazy".spec_bytes()),
        vstd::utf8::valid_utf8("DataZakupu".spec_bytes()),
        vstd::utf8::valid_utf8("DataWplywu".spec_bytes()),
{
    broadcast use vstd::string::is_ascii_spec_bytes, vstd::utf8::encode_utf8_valid_utf8;
    reveal_strlit("DataWystawienia");
    reveal_strlit("DataSprzedazy");
    reveal_strlit("DataZakupu");
    reveal_strlit("DataWplywu");
    assert(vstd::string::is_ascii("DataWystawienia"));
    assert(vstd::string::is_ascii("DataSprzedazy"));
    assert(vstd::string::is_ascii("DataZakupu"));
    assert(vstd::string::is_ascii("DataWplywu"));
}

/// A written end tag is a date end tag exactly when its input one is.
pub proof fn lemma_renamed_date(p: Seq<u8>, n: Seq<u8>, sales: bool)
    ensures
        is_date_end_out(p, EventModel::End(crate::event::renamed(p, n)), sales) == is_date_local(
            crate::names::local_name(n),
            sales,
        ),
{
    lemma_date_literals();
    let l = crate::names::local_name(n);
    let u = crate::text::utf8_or_empty(l);
    let t = crate::names::tag_name(p, u);
    assert(crate::event::renamed(p, n) == t);
    if t == crate::names::tag_name(p, "DataWystawienia".spec_bytes()) {
        lemma_tag_name_injective(p, u, "DataWystawienia".spec_bytes());
    }
    if t == crate::names::tag_name(p, "DataSprzedazy".spec_bytes()) {
        lemma_tag_name_injective(p, u, "DataSprzedazy".spec_bytes());
    }
    if t == crate::names::tag_name(p, "DataZakupu".spec_bytes()) {
        lemma_tag_name_injective(p, u, "DataZakupu".spec_bytes());
    }
    if t == crate::names::tag_name(p, "DataWplywu".spec_bytes()) {
        lemma_tag_name_injective(p, u, "DataWplywu".spec_bytes());
    }
}

/// The injected choice element's own events are no date end tags.
pub proof fn lemma_choice_not_date(p: Seq<u8>, l: Seq<u8>, sales: bool)
    requires
        l == "DI".spec_bytes() || l == "BFK".spec_bytes(),
    ensures
        forall|k: int| 0 <= k < 3 ==> !is_date_end_out(p, #[trigger] crate::row::choice_events(p, l)[k], sales),
{
    lemma_date_literals();
    lemma_choice_literals();
    let t = crate::names::tag_name(p, l);
    if t == crate::names::tag_name(p, "DataWystawienia".spec_bytes()) {
        lemma_tag_name_injective(p, l, "DataWystawienia".spec_bytes());
    }
    if t == crate::names::tag_name(p, "DataSprzedazy".spec_bytes()) {
        lemma_tag_name_injective(p, l, "DataSprzedazy".spec_bytes());
    }
    if t == crate::names::tag_name(p, "DataZakupu".spec_bytes()) {
        lemma_tag_name_injective(p, l, "DataZakupu".spec_bytes());
    }
    if t == crate::names::tag_name(p, "DataWplywu".spec_bytes()) {
        lemma_tag_name_injective(p, l, "DataWplywu".spec_bytes());
    }
}

/// The choice element's start tag as written.
pub open spec fn choice_start(p: Seq<u8>, buf: Seq<EventModel>, sales: bool) -> EventModel {
    EventModel::Start(crate::event::TagModel {
        name: crate::names::tag_name(p, crate::row::choice_local(buf, sales)),
        attributes: Seq::empty(),
    })
}

/// No date end tag of the output comes after position `k`.
pub open spec fn no_date_after(p: Seq<u8>, out: Seq<EventModel>, k: int, sales: bool) -> bool {
    forall|j: int| k < j < out.len() ==> !is_date_end_out(p, #[trigger] out[j], sales)
}

/// Writing an event that is no date end tag keeps every date end tag in front of `k`.
pub proof fn lemma_event_keeps_dates(w: crate::row::WalkModel, e: EventModel, p: Seq<u8>, sales: bool, k: int)
    requires
        0 <= k < w.out.len(),
        no_date_after(p, w.out, k, sales),
        !is_date_end_in(e, sales),
    ensures
        ({
            let w2 = crate::row::row_event(w, e, p);
            &&& k < w2.out.len()
            &&& w2.out[k] == w.out[k]
            &&& no_date_after(p, w2.out, k, sales)
        }),
{
    let w2 = crate::row::row_event(w, e, p);
    match e {
        EventModel::End(n) => lemma_renamed_date(p, n, sales),
        _ => {},
    }
    assert forall|j: int| k < j < w2.out.len() implies !is_date_end_out(p, #[trigger] w2.out[j], sales) by {
        if j < w.out.len() {
            assert(w2.out[j] == w.out[j]);
        }
    }
}

/// Once the choice element is injected, no date end tag is written after it.
pub proof fn lemma_walk_dates(buf: Seq<EventModel>, n: int, p: Seq<u8>, sales: bool)
    requires
        0 <= n < buf.len(),
    ensures
        crate::row::row_walk(buf, n, p, sales).inserted ==> exists|k: int|
            0 <= k < crate::row::row_walk(buf, n, p, sales).out.len()
                && crate::row::row_walk(buf, n, p, sales).out[k] == choice_start(p, buf, sales)
                && no_date_after(p, crate::row::row_walk(buf, n, p, sales).out, k, sales),
    decreases n,
{
    if n > 0 {
        lemma_walk_dates(buf, n - 1, p, sales);
        lemma_row_walk_choices(buf, n - 1, p, sales);
        lemma_insert_after_last_date(buf, sales);
        let w = crate::row::row_walk(buf, n - 1, p, sales);
        let l = crate::row::choice_local(buf, sales);
        let c = crate::row::choice_events(p, l);
        let ins = crate::row::insert_index(buf, sales);
        let here = n - 1 == ins && ins > 0 && n < buf.len() && !crate::row::has_own_choice(buf);
        let w1 = if here { crate::row::WalkModel { out: w.out + c, inserted: true, ..w } } else { w };
        let w2 = crate::row::row_event(w1, buf[n - 1], p);
        assert(w2 == crate::row::row_walk(buf, n, p, sales));
        if w2.inserted {
            assert(!is_date_end_in(buf[n - 1], sales));
            if here {
                let k = w.out.len() as int;
                lemma_choice_not_date(p, l, sales);
                assert(w1.out[k] == choice_start(p, buf, sales));
                assert forall|j: int| k < j < w1.out.len() implies !is_date_end_out(p, #[trigger] w1.out[j], sales) by {
                    assert(w1.out[j] == c[j - k]);
                }
                lemma_event_keeps_dates(w1, buf[n - 1], p, sales, k);
            } else {
                let k = choose|k: int|
                    0 <= k < w.out.len() && w.out[k] == choice_start(p, buf, sales) && no_date_after(p, w.out, k, sales);
                lemma_event_keeps_dates(w1, buf[n - 1], p, sales, k);
            }
        }
    }
}

/// Where a row gets an injected choice element, it comes after the row's
/// last date element: no end tag of a date element follows it in the
/// written row.
pub proof fn law_choice_after_last_date(buf: Seq<EventModel>, p: Seq<u8>, sales: bool)
    requires
        buf.len() >= 1,
        !crate::row::has_own_choice(buf),
        buf.last() matches EventModel::End(n) && !is_date_local(crate::names::local_name(n), sales),
        crate::row::skip_depth(buf, buf.len() - 1) == 0,
    ensures
        ({
            let out = crate::row::row_output(buf, p, sales);
            exists|k: int| 0 <= k < out.len() && out[k] == choice_start(p, buf, sales) && no_date_after(p, out, k, sales)
        }),
{
    let e = match buf.last() {
        EventModel::End(e) => e,
        _ => arbitrary(),
    };
    let n = buf.len() - 1;
    lemma_row_out(buf, p, sales, e);
    lemma_walk_dates(buf, n, p, sales);
    lemma_row_walk_choices(buf, n, p, sales);
    let w = crate::row::row_walk(buf, n, p, sales);
    let l = crate::row::choice_local(buf, sales);
    let c = crate::row::choice_events(p, l);
    let mid = if w.inserted { w.out } else { w.out + c };
    let last = EventModel::End(crate::event::renamed(p, e));
    let out = mid.push(last);
    assert(out == crate::row::row_output(buf, p, sales));
    lemma_renamed_date(p, e, sales);
    let k = if w.inserted {
        choose|k: int| 0 <= k < w.out.len() && w.out[k] == choice_start(p, buf, sales) && no_date_after(p, w.out, k, sales)
    } else {
        w.out.len() as int
    };
    if !w.inserted {
        lemma_choice_not_date(p, l, sales);
        assert(mid[k] == choice_start(p, buf, sales));
        assert forall|j: int| k < j < mid.len() implies !is_date_end_out(p, #[trigger] mid[j], sales) by {
            assert(mid[j] == c[j - k]);
        }
    }
    assert forall|j: int| k < j < out.len() implies !is_date_end_out(p, #[trigger] out[j], sales) by {
        if j < mid.len() {
            assert(out[j] == mid[j]);
        }
    }
    assert(out[k] == mid[k]);
}


// ---------------------------------------------------------------------------
// Field order

/// The pieces joined in order.
pub open spec fn joined(parts: Seq<Seq<EventModel>>) -> Seq<EventModel>
    decreases parts.len(),
{
    if parts.len() == 0 {
        Seq::empty()
    } else {
        joined(parts.drop_last()) + parts.last()
    }
}

/// `x` and then, further on, `y` occur in `out` as contiguous runs.
pub open spec fn precedes(out: Seq<EventModel>, x: Seq<EventModel>, y: Seq<EventModel>) -> bool {
    exists|a: int, b: int|
        0 <= a && a + x.len() <= b && b + y.len() <= out.len() && #[trigger] out.subrange(a, a + x.len()) == x
            && #[trigger] out.subrange(b, b + y.len()) == y
}

pub proof fn lemma_joined_concat(a: Seq<Seq<EventModel>>, b: Seq<Seq<EventModel>>)
    ensures
        joined(a + b) == joined(a) + joined(b),
    decreases b.len(),
{
    if b.len() == 0 {
        assert(a + b =~= a);
        assert(joined(a) + joined(b) =~= joined(a));
    } else {
        assert((a + b).drop_last() =~= a + b.drop_last());
        lemma_joined_concat(a, b.drop_last());
        assert(joined(a + b) =~= joined(a) + joined(b));
    }
}

pub proof fn lemma_joined_one(x: Seq<EventModel>)
    ensures
        joined(seq![x]) == x,
{
    reveal_with_fuel(joined, 2);
    assert(seq![x].drop_last() =~= Seq::<Seq<EventModel>>::empty());
    assert(seq![x].last() == x);
    assert(Seq::<EventModel>::empty() + x =~= x);
}

/// Of the pieces joined in order, an earlier one comes before a later one.
pub proof fn lemma_joined_order(parts: Seq<Seq<EventModel>>, i: int, j: int)
    requires
        0 <= i < j < parts.len(),
    ensures
        precedes(joined(parts), parts[i], parts[j]),
{
    let p0 = parts.subrange(0, i);
    let p1 = parts.subrange(i + 1, j);
    let p2 = parts.subrange(j + 1, parts.len() as int);
    assert(parts =~= p0 + seq![parts[i]] + p1 + seq![parts[j]] + p2);
    lemma_joined_concat(p0 + seq![parts[i]] + p1 + seq![parts[j]], p2);
    lemma_joined_concat(p0 + seq![parts[i]] + p1, seq![parts[j]]);
    lemma_joined_concat(p0 + seq![parts[i]], p1);
    lemma_joined_concat(p0, seq![parts[i]]);
    lemma_joined_one(parts[i]);
    lemma_joined_one(parts[j]);
    let out = joined(parts);
    let a = joined(p0).len() as int;
    let b = a + parts[i].len() + joined(p1).len();
    assert(out =~= joined(p0) + parts[i] + joined(p1) + parts[j] + joined(p2));
    assert(out.subrange(a, a + parts[i].len()) =~= parts[i]);
    assert(out.subrange(b, b + parts[j].len()) =~= parts[j]);
}

pub proof fn lemma_precedes_within(pre: Seq<EventModel>, mid: Seq<EventModel>, post: Seq<EventModel>, x: Seq<EventModel>, y: Seq<EventModel>)
    requires
        precedes(mid, x, y),
    ensures
        precedes(pre + mid + post, x, y),
{
    let (a, b) = choose|a: int, b: int|
        0 <= a && a + x.len() <= b && b + y.len() <= mid.len() && #[trigger] mid.subrange(a, a + x.len()) == x
            && #[trigger] mid.subrange(b, b + y.len()) == y;
    let out = pre + mid + post;
    let a2 = a + pre.len();
    let b2 = b + pre.len();
    assert(out.subrange(a2, a2 + x.len()) =~= mid.subrange(a, a + x.len()));
    assert(out.subrange(b2, b2 + y.len()) =~= mid.subrange(b, b + y.len()));
}

/// The input's own block named `name`, as written (empty when there is none).
pub open spec fn input_block(children: Seq<crate::group::ChildModel>, name: Seq<u8>, v: FormVariant, p: Seq<u8>) -> Seq<EventModel> {
    match crate::group::find_child(children, name) {
        Some(k) => crate::mapped::mapped_block(children[k].events, v, p, name),
        None => Seq::empty(),
    }
}

/// The header's fields in the order of the JPK_V7(3) schema.
pub open spec fn header_field_order() -> Seq<Seq<u8>> {
    seq![
        "KodFormularza".spec_bytes(),
        "WariantFormularza".spec_bytes(),
        "DataWytworzeniaJPK".spec_bytes(),
        "NazwaSystemu".spec_bytes(),
        "CelZlozenia".spec_bytes(),
        "KodUrzedu".spec_bytes(),
        "Rok".spec_bytes(),
        "Miesiac".spec_bytes(),
    ]
}

/// The pieces the header is written from, one per field in schema order.
pub open spec fn header_pieces(
    children: Seq<crate::group::ChildModel>,
    v: FormVariant,
    kod: Option<Seq<u8>>,
    p: Seq<u8>,
) -> Seq<Seq<EventModel>> {
    let names = header_field_order();
    seq![
        crate::header::block_or(children, names[0], v, p, crate::header::default_form_code(p, v)),
        crate::header::block_or(children, names[1], v, p,
            crate::event::text_element(p, "WariantFormularza".spec_bytes(), "3".spec_bytes())),
        crate::header::block_or(children, names[2], v, p, Seq::empty()),
        crate::header::block_or(children, names[3], v, p, Seq::empty()),
        crate::header::block_or(children, names[4], v, p, Seq::empty()),
        crate::header::kod_urzedu_block(children, v, kod, p),
        crate::header::block_or(children, names[6], v, p, crate::header::default_rok(children, p)),
        crate::header::block_or(children, names[7], v, p, crate::header::default_miesiac(children, p)),
    ]
}

pub proof fn lemma_joined_eight(parts: Seq<Seq<EventModel>>)
    requires
        parts.len() == 8,
    ensures
        joined(parts) == parts[0] + parts[1] + parts[2] + parts[3] + parts[4] + parts[5] + parts[6] + parts[7],
{
    lemma_joined_one(parts[0]);
    assert(parts.subrange(0, 1) =~= seq![parts[0]]);
    assert forall|n: int| 1 <= n <= 8 implies #[trigger] joined(parts.subrange(0, n)) == joined(parts.subrange(0, n - 1)) + parts[n - 1] by {
        assert(parts.subrange(0, n).drop_last() =~= parts.subrange(0, n - 1));
    }
    assert(joined(parts.subrange(0, 2)) == parts[0] + parts[1]);
    assert(joined(parts.subrange(0, 3)) == parts[0] + parts[1] + parts[2]);
    assert(joined(parts.subrange(0, 4)) == parts[0] + parts[1] + parts[2] + parts[3]);
    assert(joined(parts.subrange(0, 5)) == parts[0] + parts[1] + parts[2] + parts[3] + parts[4]);
    assert(joined(parts.subrange(0, 6)) == parts[0] + parts[1] + parts[2] + parts[3] + parts[4] + parts[5]);
    assert(joined(parts.subrange(0, 7)) == parts[0] + parts[1] + parts[2] + parts[3] + parts[4] + parts[5] + parts[6]);
    assert(joined(parts.subrange(0, 8)) == parts[0] + parts[1] + parts[2] + parts[3] + parts[4] + parts[5] + parts[6] + parts[7]);
    assert(parts.subrange(0, 8) =~= parts);
}

pub proof fn lemma_ten_pieces(
    o: Seq<EventModel>,
    b0: Seq<EventModel>,
    b1: Seq<EventModel>,
    b2: Seq<EventModel>,
    b3: Seq<EventModel>,
    b4: Seq<EventModel>,
    b5: Seq<EventModel>,
    b6: Seq<EventModel>,
    b7: Seq<EventModel>,
    c: Seq<EventModel>,
)
    ensures
        (o + b0 + b1 + b2 + b3 + b4) + b5 + b6 + b7 + c == o + (b0 + b1 + b2 + b3 + b4 + b5 + b6 + b7) + c,
{
    assert((o + b0 + b1 + b2 + b3 + b4) + b5 + b6 + b7 + c =~= o + (b0 + b1 + b2 + b3 + b4 + b5 + b6 + b7) + c);
}

pub proof fn lemma_header_pieces(children: Seq<crate::group::ChildModel>, v: FormVariant, kod: Option<Seq<u8>>, p: Seq<u8>)
    ensures
        crate::header::header_output(children, v, kod, p) == seq![EventModel::Start(crate::event::TagModel {
            name: crate::names::tag_name(p, "Naglowek".spec_bytes()),
            attributes: Seq::empty(),
        })] + joined(header_pieces(children, v, kod, p)) + seq![EventModel::End(crate::names::tag_name(p, "Naglowek".spec_bytes()))],
{
    let parts = header_pieces(children, v, kod, p);
    lemma_joined_eight(parts);
    let o = seq![EventModel::Start(crate::event::TagModel {
        name: crate::names::tag_name(p, "Naglowek".spec_bytes()),
        attributes: Seq::empty(),
    })];
    let c = seq![EventModel::End(crate::names::tag_name(p, "Naglowek".spec_bytes()))];
    lemma_ten_pieces(o, parts[0], parts[1], parts[2], parts[3], parts[4], parts[5], parts[6], parts[7], c);
    assert(crate::header::header_head(children, v, p) == o + parts[0] + parts[1] + parts[2] + parts[3] + parts[4]) by {
        reveal(crate::header::header_head);
    }
    assert(crate::header::header_output(children, v, kod, p) == crate::header::header_head(children, v, p)
        + parts[5] + parts[6] + parts[7] + c) by {
        reveal(crate::header::header_output);
    }
}

/// The header is written in the schema's order: of two fields that the input
/// has, the one earlier in `KodFormularza, WariantFormularza,
/// DataWytworzeniaJPK, NazwaSystemu, CelZlozenia, KodUrzedu, Rok, Miesiac` is
/// written first (`KodUrzedu` from the input when the caller gave no code).
pub proof fn law_header_field_order(
    children: Seq<crate::group::ChildModel>,
    v: FormVariant,
    kod: Option<Seq<u8>>,
    p: Seq<u8>,
    i: int,
    j: int,
)
    requires
        0 <= i < j < 8,
        crate::group::find_child(children, header_field_order()[i]) is Some,
        crate::group::find_child(children, header_field_order()[j]) is Some,
        (i == 5 || j == 5) ==> !(kod matches Some(u) && u.len() > 0),
    ensures
        precedes(
            crate::header::header_output(children, v, kod, p),
            input_block(children, header_field_order()[i], v, p),
            input_block(children, header_field_order()[j], v, p),
        ),
{
    let names = header_field_order();
    let parts = header_pieces(children, v, kod, p);
    lemma_header_pieces(children, v, kod, p);
    assert forall|k: int|
        0 <= k < 8 && crate::group::find_child(children, names[k]) is Some && (k == 5 ==> !(kod matches Some(u)
            && u.len() > 0)) implies #[trigger] parts[k] == input_block(children, names[k], v, p) by {
        if k == 5 {
            assert(parts[5] == crate::header::kod_urzedu_block(children, v, kod, p));
        }
    }
    lemma_joined_order(parts, i, j);
    lemma_precedes_within(
        seq![EventModel::Start(crate::event::TagModel {
            name: crate::names::tag_name(p, "Naglowek".spec_bytes()),
            attributes: Seq::empty(),
        })],
        joined(parts),
        seq![EventModel::End(crate::names::tag_name(p, "Naglowek".spec_bytes()))],
        parts[i],
        parts[j],
    );
}


pub proof fn lemma_find_field_plain(children: Seq<crate::group::ChildModel>, name: Seq<u8>)
    ensures
        crate::subject::find_field(children, name, false) == crate::group::find_child(children, name),
    decreases children.len(),
{
    if children.len() > 0 {
        lemma_find_field_plain(children.drop_first(), name);
    }
}

/// The fields written one after another, each as `person_field` writes it.
pub proof fn lemma_person_fields_joined(
    children: Seq<crate::group::ChildModel>,
    names: Seq<Seq<u8>>,
    alias: bool,
    v: FormVariant,
    p: Seq<u8>,
)
    ensures
        crate::subject::person_fields(children, names, alias, v, p) == joined(
            Seq::new(names.len(), |k: int| crate::subject::person_field(children, names[k], alias, v, p)),
        ),
    decreases names.len(),
{
    if names.len() > 0 {
        lemma_person_fields_joined(children, names.drop_last(), alias, v, p);
        let all = Seq::new(names.len(), |k: int| crate::subject::person_field(children, names[k], alias, v, p));
        let d = names.drop_last();
        assert(all.drop_last() =~= Seq::new(d.len(), |k: int| crate::subject::person_field(children, d[k], alias, v, p)));
    }
}

/// A field the block has is written as the block's own element.
pub proof fn lemma_person_field_given(children: Seq<crate::group::ChildModel>, name: Seq<u8>, v: FormVariant, p: Seq<u8>)
    requires
        crate::group::find_child(children, name) is Some,
    ensures
        crate::subject::person_field(children, name, false, v, p) == input_block(children, name, v, p),
{
    lemma_find_field_plain(children, name);
    crate::group::lemma_find_child(children, name);
}

/// A natural person's fields in the order of the JPK_V7(3) schema.
pub open spec fn natural_person_order() -> Seq<Seq<u8>> {
    seq![
        "NIP".spec_bytes(),
        "Imie".spec_bytes(),
        "Nazwisko".spec_bytes(),
        "DataUrodzenia".spec_bytes(),
        "Email".spec_bytes(),
        "Telefon".spec_bytes(),
    ]
}

/// A company's fields in the order of the JPK_V7(3) schema.
pub open spec fn company_order() -> Seq<Seq<u8>> {
    seq!["NIP".spec_bytes(), "PelnaNazwa".spec_bytes(), "Email".spec_bytes(), "Telefon".spec_bytes()]
}

/// The person block of the taxpayer is written in the schema's order: of two
/// fields that the input's `OsobaFizyczna` has, the one earlier in `NIP,
/// Imie, Nazwisko, DataUrodzenia, Email, Telefon` is written first.
pub proof fn law_person_field_order(children: Seq<crate::group::ChildModel>, v: FormVariant, p: Seq<u8>, f: int, i: int, j: int)
    requires
        crate::group::find_child(children, "OsobaFizyczna".spec_bytes()) == Some(f),
        0 <= i < j < 6,
        crate::group::find_child(crate::group::children_of(children[f].events), natural_person_order()[i]) is Some,
        crate::group::find_child(crate::group::children_of(children[f].events), natural_person_order()[j]) is Some,
    ensures
        precedes(
            crate::subject::subject_output(children, v, p),
            input_block(crate::group::children_of(children[f].events), natural_person_order()[i], v, p),
            input_block(crate::group::children_of(children[f].events), natural_person_order()[j], v, p),
        ),
{
    reveal(crate::subject::subject_output);
    let nested = crate::group::children_of(children[f].events);
    let names = natural_person_order();
    assert(crate::subject::natural_person_names() == names);
    lemma_person_fields_joined(nested, names, false, v, p);
    let parts = Seq::new(names.len(), |k: int| crate::subject::person_field(nested, names[k], false, v, p));
    lemma_person_field_given(nested, names[i], v, p);
    lemma_person_field_given(nested, names[j], v, p);
    lemma_joined_order(parts, i, j);
    let inner = joined(parts);
    let n = crate::names::tag_name(p, "OsobaFizyczna".spec_bytes());
    let open = seq![EventModel::Start(crate::event::TagModel { name: n, attributes: Seq::empty() })];
    let close = seq![EventModel::End(n)];
    lemma_precedes_within(open, inner, close, parts[i], parts[j]);
    let pn = crate::names::tag_name(p, "Podmiot1".spec_bytes());
    let popen = seq![EventModel::Start(crate::event::TagModel {
        name: pn,
        attributes: seq![crate::event::AttrModel { key: "rola".spec_bytes(), value: "Podatnik".spec_bytes() }],
    })];
    lemma_precedes_within(popen, open + inner + close, seq![EventModel::End(pn)], parts[i], parts[j]);
}

/// The company block of the taxpayer is written in the schema's order: of two
/// fields that the input's `OsobaNiefizyczna` has (when it has no
/// `OsobaFizyczna`), the one earlier in `NIP, PelnaNazwa, Email, Telefon` is
/// written first.
pub proof fn law_company_field_order(children: Seq<crate::group::ChildModel>, v: FormVariant, p: Seq<u8>, f: int, i: int, j: int)
    requires
        crate::group::find_child(children, "OsobaFizyczna".spec_bytes()) is None,
        crate::group::find_child(children, "OsobaNiefizyczna".spec_bytes()) == Some(f),
        0 <= i < j < 4,
        crate::group::find_child(crate::group::children_of(children[f].events), company_order()[i]) is Some,
        crate::group::find_child(crate::group::children_of(children[f].events), company_order()[j]) is Some,
    ensures
        precedes(
            crate::subject::subject_output(children, v, p),
            input_block(crate::group::children_of(children[f].events), company_order()[i], v, p),
            input_block(crate::group::children_of(children[f].events), company_order()[j], v, p),
        ),
{
    reveal(crate::subject::subject_output);
    let nested = crate::group::children_of(children[f].events);
    let names = company_order();
    assert(crate::subject::company_names() == names);
    lemma_person_fields_joined(nested, names, false, v, p);
    let parts = Seq::new(names.len(), |k: int| crate::subject::person_field(nested, names[k], false, v, p));
    lemma_person_field_given(nested, names[i], v, p);
    lemma_person_field_given(nested, names[j], v, p);
    lemma_joined_order(parts, i, j);
    let inner = joined(parts);
    let n = crate::names::tag_name(p, "OsobaNiefizyczna".spec_bytes());
    let open = seq![EventModel::Start(crate::event::TagModel { name: n, attributes: Seq::empty() })];
    let close = seq![EventModel::End(n)];
    lemma_precedes_within(open, inner, close, parts[i], parts[j]);
    let pn = crate::names::tag_name(p, "Podmiot1".spec_bytes());
    let popen = seq![EventModel::Start(crate::event::TagModel {
        name: pn,
        attributes: seq![crate::event::AttrModel { key: "rola".spec_bytes(), value: "Podatnik".spec_bytes() }],
    })];
    lemma_precedes_within(popen, open + inner + close, seq![EventModel::End(pn)], parts[i], parts[j]);
}

} // verus!
