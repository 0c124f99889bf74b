//! The control sections (`SprzedazCtrl`, `ZakupCtrl`): row counts recomputed,
//! and the tax total recomputed or, when the input's differs, kept with a warning.
use vstd::prelude::*;
use vstd::string::*;
use vstd::utf8::*;
use crate::event::{EventModel, Tag, TagModel, XmlEvent, is_lit, lit, push_text_element, text_element, copy_bytes, rename, renamed};
use crate::group::{Child, ChildModel, children_of, find_child, find_child_index, group_children};
use crate::header::last_text;
use crate::names::{local_name, split_name, tag_name};
use crate::text::{decimal, escape, usize_to_decimal, xml_escape};

verus! {

broadcast use {vstd::utf8::valid_utf8_concat, vstd::utf8::encode_utf8_valid_utf8};

/// Which control section.
#[derive(PartialEq, Eq, Structural, Clone, Copy, Debug)]
pub enum CtrlKind {
    Sales,
    Purchase,
    Other,
}

pub open spec fn ctrl_kind_of(local: Seq<u8>) -> CtrlKind {
    if local == "SprzedazCtrl".spec_bytes() {
        CtrlKind::Sales
    } else if local == "ZakupCtrl".spec_bytes() {
        CtrlKind::Purchase
    } else {
        CtrlKind::Other
    }
}

/// A control section waiting for its recomputed total: the caller computes the
/// total of the amounts it was told of and hands it to [`control_block`].
pub struct ControlRequest {
    pub kind: CtrlKind,
    /// The section's element name under the output prefix.
    pub tag: Vec<u8>,
    /// The output prefix.
    pub prefix: Vec<u8>,
    /// The number of counted rows of the section's kind.
    pub count: usize,
    /// The total that the input gives, trimmed; empty when it gives none.
    pub old_value: Vec<u8>,
}

pub struct ControlRequestModel {
    pub kind: CtrlKind,
    pub tag: Seq<u8>,
    pub prefix: Seq<u8>,
    pub count: nat,
    pub old_value: Seq<u8>,
}

impl View for ControlRequest {
    type V = ControlRequestModel;

    open spec fn view(&self) -> ControlRequestModel {
        ControlRequestModel {
            kind: self.kind,
            tag: self.tag@,
            prefix: self.prefix@,
            count: self.count as nat,
            old_value: self.old_value@,
        }
    }
}

pub open spec fn total_name(kind: CtrlKind) -> Seq<u8> {
    if kind == CtrlKind::Sales {
        "PodatekNalezny".spec_bytes()
    } else {
        "PodatekNaliczony".spec_bytes()
    }
}

pub open spec fn count_name(kind: CtrlKind) -> Seq<u8> {
    if kind == CtrlKind::Sales {
        "LiczbaWierszySprzedazy".spec_bytes()
    } else {
        "LiczbaWierszyZakupow".spec_bytes()
    }
}

/// The total that the input's section gives: the last text of its first total element.
pub open spec fn input_total(children: Seq<ChildModel>, kind: CtrlKind) -> Seq<u8> {
    match find_child(children, total_name(kind)) {
        Some(i) => last_text(Seq::empty(), children[i].events),
        None => Seq::empty(),
    }
}

/// The request for a buffered control section (its own start and end tags included),
/// `None` when the buffer does not begin with a start tag.
#[verifier::opaque]
pub open spec fn control_request(buf: Seq<EventModel>, prefix: Seq<u8>, count_sales: nat, count_purchase: nat) -> Option<ControlRequestModel> {
    if buf.len() > 0 {
        match buf[0] {
            EventModel::Start(t) => {
                let kind = ctrl_kind_of(local_name(t.name));
                Some(ControlRequestModel {
                    kind,
                    tag: renamed(prefix, t.name),
                    prefix,
                    count: if kind == CtrlKind::Purchase { count_purchase } else { count_sales },
                    old_value: if kind == CtrlKind::Other { Seq::empty() } else { input_total(children_of(buf), kind) },
                })
            },
            _ => None,
        }
    } else {
        None
    }
}

fn input_total_of(children: &Vec<Child>, kind: CtrlKind) -> (r: Vec<u8>)
    requires
        kind != CtrlKind::Other,
    ensures
        r@ == input_total(children.deep_view(), kind),
        valid_utf8(r@),
{
    let name = if kind == CtrlKind::Sales { lit("PodatekNalezny") } else { lit("PodatekNaliczony") };
    match find_child_index(children, name.as_slice()) {
        Some(i) => {
            let ghost e = children@[i as int].events.deep_view();
            let mut v: Vec<u8> = Vec::new();
            let mut k: usize = 0;
            proof {
                assert(valid_utf8(Seq::<u8>::empty()));
            }
            while k < children[i].events.len()
                invariant
                    i < children@.len(),
                    e == children@[i as int].events.deep_view(),
                    k <= e.len(),
                    v@ == last_text(Seq::empty(), e.subrange(0, k as int)),
                    valid_utf8(v@),
                decreases e.len() - k,
            {
                assert(e.subrange(0, k + 1).drop_last() =~= e.subrange(0, k as int));
                if let XmlEvent::Text(x) = &children[i].events[k] {
                    v = crate::text::text_value_of(x.as_slice());
                }
                k = k + 1;
            }
            assert(e.subrange(0, e.len() as int) =~= e);
            v
        },
        None => {
            proof {
                assert(valid_utf8(Seq::<u8>::empty()));
            }
            Vec::new()
        },
    }
}

/// The request for a buffered control section.
pub fn process_ctrl_buffer(buf: &[XmlEvent], prefix: &[u8], count_sales: usize, count_purchase: usize) -> (r: Option<ControlRequest>)
    ensures
        match r {
            Some(q) => control_request(buf.deep_view(), prefix@, count_sales as nat, count_purchase as nat)
                == Some(q@) && valid_utf8(q.old_value@),
            None => control_request(buf.deep_view(), prefix@, count_sales as nat, count_purchase as nat) is None,
        },
{
    reveal(control_request);
    if buf.len() == 0 {
        return None;
    }
    match &buf[0] {
        XmlEvent::Start(t) => {
            let (_, l) = split_name(t.name.as_slice());
            let kind = if is_lit(l, "SprzedazCtrl") {
                CtrlKind::Sales
            } else if is_lit(l, "ZakupCtrl") {
                CtrlKind::Purchase
            } else {
                CtrlKind::Other
            };
            let old_value = if kind == CtrlKind::Other {
                proof {
                    assert(valid_utf8(Seq::<u8>::empty()));
                }
                Vec::new()
            } else {
                let children = group_children(buf);
                input_total_of(&children, kind)
            };
            let count = if kind == CtrlKind::Purchase { count_purchase } else { count_sales };
            Some(ControlRequest {
                kind,
                tag: rename(prefix, t.name.as_slice()),
                prefix: copy_bytes(prefix),
                count,
                old_value,
            })
        },
        _ => None,
    }
}

/// `SprzedazCtrl/PodatekNalezny` or `ZakupCtrl/PodatekNaliczony`.
pub open spec fn total_label(kind: CtrlKind) -> Seq<u8> {
    if kind == CtrlKind::Sales {
        "SprzedazCtrl/PodatekNalezny".spec_bytes()
    } else {
        "ZakupCtrl/PodatekNaliczony".spec_bytes()
    }
}

/// The input's total differs from the recomputed one (in both of its roundings).
pub open spec fn discrepancy(old_value: Seq<u8>, total2: Seq<u8>, total1: Seq<u8>) -> bool {
    old_value.len() > 0 && old_value != total2 && old_value != total1
}

/// `Warning: Control total discrepancy in <label> is <old> (calculated <total>)`.
pub open spec fn warning_message(kind: CtrlKind, old_value: Seq<u8>, total2: Seq<u8>) -> Seq<u8> {
    "Warning: Control total discrepancy in ".spec_bytes() + total_label(kind) + " is ".spec_bytes()
        + old_value + " (calculated ".spec_bytes() + total2 + ")".spec_bytes()
}

/// The events of a control section, given its recomputed total written with
/// two (`total2`) and one (`total1`) decimals: the row count, then the total.
/// The input's total is kept, after a warning comment, when it differs from
/// both; otherwise the recomputed total is written.
pub open spec fn control_events(req: ControlRequestModel, total2: Seq<u8>, total1: Seq<u8>) -> Seq<EventModel> {
    let open = EventModel::Start(TagModel { name: req.tag, attributes: Seq::empty() });
    let close = EventModel::End(req.tag);
    if req.kind == CtrlKind::Other {
        seq![open, close]
    } else {
        let disc = discrepancy(req.old_value, total2, total1);
        let msg = warning_message(req.kind, req.old_value, total2);
        let comment = if disc {
            seq![EventModel::Comment(xml_escape(" ".spec_bytes() + msg + " ".spec_bytes()))]
        } else {
            Seq::empty()
        };
        let value = if disc { req.old_value } else { total2 };
        seq![open] + text_element(req.prefix, count_name(req.kind), decimal(req.count)) + comment
            + text_element(req.prefix, total_name(req.kind), xml_escape(value)) + seq![close]
    }
}

/// The events of a control section and the warning to show, if any.
pub struct ControlBlock {
    pub events: Vec<XmlEvent>,
    pub warning: Option<Vec<u8>>,
}

fn concat(a: &[u8], b: &[u8]) -> (r: Vec<u8>)
    ensures
        r@ == a@ + b@,
{
    let mut r = copy_bytes(a);
    let mut i: usize = 0;
    while i < b.len()
        invariant
            i <= b@.len(),
            r@ == a@ + b@.subrange(0, i as int),
        decreases b@.len() - i,
    {
        r.push(b[i]);
        assert(b@.subrange(0, i + 1) =~= b@.subrange(0, i as int).push(b@[i as int]));
        i = i + 1;
    }
    assert(b@.subrange(0, b@.len() as int) =~= b@);
    r
}

/// Writes a control section once its total is known.
pub fn control_block(req: &ControlRequest, total2: &[u8], total1: &[u8]) -> (r: ControlBlock)
    requires
        valid_utf8(req.old_value@),
        valid_utf8(total2@),
    ensures
        r.events.deep_view() == control_events(req@, total2@, total1@),
        r.warning matches Some(m) ==> discrepancy(req.old_value@, total2@, total1@) && m@
            == warning_message(req.kind, req.old_value@, total2@),
        r.warning is None ==> req.kind == CtrlKind::Other || !discrepancy(req.old_value@, total2@, total1@),
{
    let mut out: Vec<XmlEvent> = Vec::new();
    out.push(XmlEvent::Start(Tag::bare(copy_bytes(req.tag.as_slice()))));
    if req.kind == CtrlKind::Other {
        out.push(XmlEvent::End(copy_bytes(req.tag.as_slice())));
        assert(out.deep_view() =~= control_events(req@, total2@, total1@));
        return ControlBlock { events: out, warning: None };
    }
    let ghost o1 = out.deep_view();
    assert(o1 =~= seq![EventModel::Start(TagModel { name: req.tag@, attributes: Seq::empty() })]);
    let sales = req.kind == CtrlKind::Sales;
    let cnt_local = if sales { lit("LiczbaWierszySprzedazy") } else { lit("LiczbaWierszyZakupow") };
    push_text_element(&mut out, req.prefix.as_slice(), cnt_local.as_slice(), usize_to_decimal(req.count));
    let ghost o2 = out.deep_view();
    let old = req.old_value.as_slice();
    let disc = old.len() > 0 && !crate::event::bytes_eq(old, total2) && !crate::event::bytes_eq(old, total1);
    let label = if sales { lit("SprzedazCtrl/PodatekNalezny") } else { lit("ZakupCtrl/PodatekNaliczony") };
    let mut warning: Option<Vec<u8>> = None;
    let value = if disc {
        let m = concat(lit("Warning: Control total discrepancy in ").as_slice(), label.as_slice());
        let m = concat(m.as_slice(), lit(" is ").as_slice());
        let m = concat(m.as_slice(), old);
        let m = concat(m.as_slice(), lit(" (calculated ").as_slice());
        let m = concat(m.as_slice(), total2);
        let m = concat(m.as_slice(), lit(")").as_slice());
        assert(m@ =~= warning_message(req.kind, old@, total2@));
        let padded = concat(lit(" ").as_slice(), m.as_slice());
        let padded = concat(padded.as_slice(), lit(" ").as_slice());
        proof {
            let w = "Warning: Control total discrepancy in ".spec_bytes();
            let lb = total_label(req.kind);
            assert(valid_utf8(lb));
            vstd::utf8::valid_utf8_concat(w, lb);
            vstd::utf8::valid_utf8_concat(w + lb, " is ".spec_bytes());
            vstd::utf8::valid_utf8_concat(w + lb + " is ".spec_bytes(), old@);
            vstd::utf8::valid_utf8_concat(w + lb + " is ".spec_bytes() + old@, " (calculated ".spec_bytes());
            vstd::utf8::valid_utf8_concat(w + lb + " is ".spec_bytes() + old@ + " (calculated ".spec_bytes(), total2@);
            vstd::utf8::valid_utf8_concat(w + lb + " is ".spec_bytes() + old@ + " (calculated ".spec_bytes() + total2@, ")".spec_bytes());
            vstd::utf8::valid_utf8_concat(" ".spec_bytes(), m@);
            vstd::utf8::valid_utf8_concat(" ".spec_bytes() + m@, " ".spec_bytes());
            assert(padded@ =~= " ".spec_bytes() + m@ + " ".spec_bytes());
        }
        out.push(XmlEvent::Comment(escape(padded.as_slice())));
        warning = Some(m);
        copy_bytes(old)
    } else {
        copy_bytes(total2)
    };
    let ghost o3 = out.deep_view();
    assert(o3 =~= o2 + if discrepancy(old@, total2@, total1@) {
        seq![EventModel::Comment(xml_escape(" ".spec_bytes() + warning_message(req.kind, old@, total2@) + " ".spec_bytes()))]
    } else {
        Seq::empty()
    });
    assert(cnt_local@ == count_name(req.kind));
    assert(o2 == o1 + text_element(req.prefix@, count_name(req.kind), decimal(req.count as nat)));
    assert(value@ == if discrepancy(old@, total2@, total1@) { old@ } else { total2@ });
    let tot_local = if sales { lit("PodatekNalezny") } else { lit("PodatekNaliczony") };
    push_text_element(&mut out, req.prefix.as_slice(), tot_local.as_slice(), escape(value.as_slice()));
    assert(tot_local@ == total_name(req.kind));
    let ghost o4 = out.deep_view();
    assert(o4 == o3 + text_element(req.prefix@, total_name(req.kind), xml_escape(value@)));
    out.push(XmlEvent::End(copy_bytes(req.tag.as_slice())));
    assert(out.deep_view() =~= control_events(req@, total2@, total1@));
    ControlBlock { events: out, warning }
}

} // verus!
