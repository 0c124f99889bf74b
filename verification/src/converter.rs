//! The conversion state machine: it takes the events of a JPK_V7(1)/(2)
//! document one at a time and gives back what to write, what to add to the
//! totals, and when a control section waits for its total.
use vstd::prelude::*;
use vstd::string::*;
use vstd::utf8::*;
use crate::control::{ControlRequest, ControlRequestModel, control_request, process_ctrl_buffer};
use crate::event::{
    first_keys, first_keys_of,
    EventModel, Tag, TagModel, XmlEvent, is_lit, lit, copy_bytes, rename, renamed, rewrite_tag,
    rewritten_tag,
};
use crate::form::{FormVariant, FormVersion};
use crate::group::children_of;
use crate::header::{
    header_head, header_output, header_panics, header_variant, header_would_panic,
    kod_urzedu_missing, opt_bytes, process_naglowek_buffer,
};
use crate::names::{build_tag, local_name, name_prefix, split_name, tag_name};
use crate::root::{Detected, detect, detect_version, root_tag, root_tag_out};
use crate::row::{AmountModel, RowReport, is_fp, process_row_buffer, row_amounts, row_is_fp, row_output};
use crate::subject::{process_podmiot_buffer, subject_nip, subject_nip_of, subject_output};

verus! {

// ---------------------------------------------------------------------------
// What a step gives back

pub struct RowReportModel {
    pub sales: bool,
    pub counted: bool,
    pub amounts: Seq<AmountModel>,
}

impl View for RowReport {
    type V = RowReportModel;

    open spec fn view(&self) -> RowReportModel {
        RowReportModel { sales: self.sales, counted: self.counted, amounts: self.amounts.deep_view() }
    }
}

/// One thing for the caller to do.
pub enum Output {
    /// Write this event.
    Event(XmlEvent),
    /// Add the amounts of this row to the totals.
    Row(RowReport),
    /// Compute the total for this control section and write [`crate::control::control_block`].
    Control(ControlRequest),
}

pub enum OutputModel {
    Event(EventModel),
    Row(RowReportModel),
    Control(ControlRequestModel),
}

impl View for Output {
    type V = OutputModel;

    open spec fn view(&self) -> OutputModel {
        match self {
            Output::Event(e) => OutputModel::Event(e@),
            Output::Row(r) => OutputModel::Row(r@),
            Output::Control(c) => OutputModel::Control(c@),
        }
    }
}

impl DeepView for Output {
    type V = OutputModel;

    open spec fn deep_view(&self) -> OutputModel {
        self@
    }
}

/// Why a conversion stops.
#[derive(PartialEq, Eq, Structural, Clone, Copy, Debug)]
pub enum ConvertError {
    /// The root's namespace is not one of a supported JPK_V7 form.
    UnrecognizedNamespace,
    /// A V1 form has no tax office code and none was given.
    MissingKodUrzedu,
    /// The document has no `JPK` root element.
    NoRoot,
}

/// The text of the message shown for each error.
pub open spec fn error_message(e: ConvertError) -> Seq<char> {
    match e {
        ConvertError::UnrecognizedNamespace => "Error: Input file must be of JPK_V7 (1 or 2) type root namespace."@,
        ConvertError::MissingKodUrzedu => "Error: KodUrzedu is mandatory for conversion to JPK_V7(3). Please provide it using -u or --urzad flag."@,
        ConvertError::NoRoot => "Error: Unrecognized format or empty file, could not find JPK root node."@,
    }
}

impl ConvertError {
    /// The message shown for the error.
    pub fn message(&self) -> (r: &'static str)
        ensures
            r@ == error_message(*self),
    {
        match self {
            ConvertError::UnrecognizedNamespace => "Error: Input file must be of JPK_V7 (1 or 2) type root namespace.",
            ConvertError::MissingKodUrzedu => "Error: KodUrzedu is mandatory for conversion to JPK_V7(3). Please provide it using -u or --urzad flag.",
            ConvertError::NoRoot => "Error: Unrecognized format or empty file, could not find JPK root node.",
        }
    }
}

/// What one event gives: outputs in order, then possibly an error that stops
/// the conversion.
pub struct Step {
    pub outputs: Vec<Output>,
    pub error: Option<ConvertError>,
}

// ---------------------------------------------------------------------------
// The state

#[verifier::ext_equal]
pub struct ConvModel {
    pub version: FormVersion,
    pub variant: FormVariant,
    pub has_checked_root: bool,
    pub root_prefix: Seq<u8>,
    pub target_prefix: Option<Seq<u8>>,
    pub inside_naglowek: bool,
    pub naglowek_buffer: Seq<EventModel>,
    pub inside_sales: bool,
    pub sales_buffer: Seq<EventModel>,
    pub inside_purchase: bool,
    pub purchase_buffer: Seq<EventModel>,
    pub inside_podmiot: bool,
    pub podmiot_buffer: Seq<EventModel>,
    pub inside_ctrl: bool,
    pub ctrl_buffer: Seq<EventModel>,
    pub has_started_ewidencja: bool,
    pub kod_urzedu: Option<Seq<u8>>,
    pub explicit_variant: FormVariant,
    pub taxpayer_nip: Option<Seq<u8>>,
    pub count_sales: nat,
    pub count_purchase: nat,
}

/// The prefix of every element written: the caller's, else the input root's.
pub open spec fn active_prefix(m: ConvModel) -> Seq<u8> {
    match m.target_prefix {
        Some(p) => p,
        None => m.root_prefix,
    }
}

pub open spec fn initial_state(target: Option<Seq<u8>>, kod: Option<Seq<u8>>, explicit: FormVariant) -> ConvModel {
    ConvModel {
        version: FormVersion::Unknown,
        variant: FormVariant::Unknown,
        has_checked_root: false,
        root_prefix: Seq::empty(),
        target_prefix: target,
        inside_naglowek: false,
        naglowek_buffer: Seq::empty(),
        inside_sales: false,
        sales_buffer: Seq::empty(),
        inside_purchase: false,
        purchase_buffer: Seq::empty(),
        inside_podmiot: false,
        podmiot_buffer: Seq::empty(),
        inside_ctrl: false,
        ctrl_buffer: Seq::empty(),
        has_started_ewidencja: false,
        kod_urzedu: kod,
        explicit_variant: explicit,
        taxpayer_nip: None,
        count_sales: 0,
        count_purchase: 0,
    }
}

pub struct StepModel {
    pub state: ConvModel,
    pub out: Seq<OutputModel>,
    pub error: Option<ConvertError>,
}

pub open spec fn events_out(evs: Seq<EventModel>) -> Seq<OutputModel> {
    Seq::new(evs.len(), |i: int| OutputModel::Event(evs[i]))
}

pub open spec fn quiet(m: ConvModel) -> StepModel {
    StepModel { state: m, out: Seq::empty(), error: None }
}

pub open spec fn is_row_name(l: Seq<u8>) -> bool {
    l == "SprzedazWiersz".spec_bytes() || l == "ZakupWiersz".spec_bytes()
}

pub open spec fn is_ctrl_name(l: Seq<u8>) -> bool {
    l == "SprzedazCtrl".spec_bytes() || l == "ZakupCtrl".spec_bytes()
}

/// The first start tag `JPK`: version and variant are read, the root is rewritten.
pub open spec fn root_step(m: ConvModel, t: TagModel) -> StepModel {
    let prefix = name_prefix(t.name);
    let var0 = if m.explicit_variant != FormVariant::Unknown { m.explicit_variant } else { m.variant };
    let d = detect(first_keys(t.attributes), prefix, Detected { version: m.version, variant: var0 });
    let m1 = ConvModel { has_checked_root: true, root_prefix: prefix, version: d.version, variant: d.variant, ..m };
    if d.version == FormVersion::Unknown {
        StepModel { state: m1, out: Seq::empty(), error: Some(ConvertError::UnrecognizedNamespace) }
    } else {
        let var = if d.variant == FormVariant::Unknown { FormVariant::M } else { d.variant };
        let m2 = ConvModel { variant: var, ..m1 };
        StepModel {
            state: m2,
            out: seq![OutputModel::Event(EventModel::Start(root_tag_out(t, active_prefix(m2), var)))],
            error: None,
        }
    }
}

/// A start tag: the root is handled once; header, control, taxpayer and row
/// blocks are buffered until they end; the `Ewidencja` wrapper of V1 inputs
/// opens before their first row; other elements are written under the prefix.
pub open spec fn start_step(m: ConvModel, t: TagModel) -> StepModel {
    let local = local_name(t.name);
    let ev = EventModel::Start(t);
    if !m.has_checked_root && local == "JPK".spec_bytes() {
        root_step(m, t)
    } else if local == "Naglowek".spec_bytes() {
        quiet(ConvModel { inside_naglowek: true, naglowek_buffer: seq![ev], ..m })
    } else if is_ctrl_name(local) {
        quiet(ConvModel { inside_ctrl: true, ctrl_buffer: seq![ev], ..m })
    } else if m.inside_ctrl {
        quiet(ConvModel { ctrl_buffer: m.ctrl_buffer.push(ev), ..m })
    } else if m.inside_naglowek {
        quiet(ConvModel { naglowek_buffer: m.naglowek_buffer.push(ev), ..m })
    } else if local == "Podmiot1".spec_bytes() {
        quiet(ConvModel { inside_podmiot: true, podmiot_buffer: seq![ev], ..m })
    } else if m.inside_podmiot {
        quiet(ConvModel { podmiot_buffer: m.podmiot_buffer.push(ev), ..m })
    } else {
        let ew = m.version == FormVersion::V1 && !m.has_started_ewidencja && (is_row_name(local)
            || is_ctrl_name(local));
        let pre = if ew {
            seq![OutputModel::Event(EventModel::Start(TagModel {
                name: tag_name(active_prefix(m), "Ewidencja".spec_bytes()),
                attributes: Seq::empty(),
            }))]
        } else {
            Seq::empty()
        };
        let m1 = if ew { ConvModel { has_started_ewidencja: true, ..m } } else { m };
        if local == "SprzedazWiersz".spec_bytes() && !m.inside_purchase {
            StepModel { state: ConvModel { inside_sales: true, sales_buffer: seq![ev], ..m1 }, out: pre, error: None }
        } else if local == "ZakupWiersz".spec_bytes() && !m.inside_sales {
            StepModel { state: ConvModel { inside_purchase: true, purchase_buffer: seq![ev], ..m1 }, out: pre, error: None }
        } else if m.inside_sales {
            StepModel { state: ConvModel { sales_buffer: m.sales_buffer.push(ev), ..m1 }, out: pre, error: None }
        } else if m.inside_purchase {
            StepModel { state: ConvModel { purchase_buffer: m.purchase_buffer.push(ev), ..m1 }, out: pre, error: None }
        } else {
            StepModel {
                state: m1,
                out: pre.push(OutputModel::Event(EventModel::Start(rewritten_tag(active_prefix(m), t)))),
                error: None,
            }
        }
    }
}

/// Text goes to the innermost open buffer, else it is written as it is.
pub open spec fn text_step(m: ConvModel, x: Seq<u8>) -> StepModel {
    let ev = EventModel::Text(x);
    if m.inside_ctrl {
        quiet(ConvModel { ctrl_buffer: m.ctrl_buffer.push(ev), ..m })
    } else if m.inside_naglowek {
        quiet(ConvModel { naglowek_buffer: m.naglowek_buffer.push(ev), ..m })
    } else if m.inside_podmiot {
        quiet(ConvModel { podmiot_buffer: m.podmiot_buffer.push(ev), ..m })
    } else if m.inside_sales {
        quiet(ConvModel { sales_buffer: m.sales_buffer.push(ev), ..m })
    } else if m.inside_purchase {
        quiet(ConvModel { purchase_buffer: m.purchase_buffer.push(ev), ..m })
    } else {
        StepModel { state: m, out: seq![OutputModel::Event(ev)], error: None }
    }
}

/// Empty elements and other events go to an open header, taxpayer or row
/// buffer (not to a control buffer), else they are written.
pub open spec fn passthrough_step(m: ConvModel, ev: EventModel, written: EventModel) -> StepModel {
    if m.inside_naglowek {
        quiet(ConvModel { naglowek_buffer: m.naglowek_buffer.push(ev), ..m })
    } else if m.inside_podmiot {
        quiet(ConvModel { podmiot_buffer: m.podmiot_buffer.push(ev), ..m })
    } else if m.inside_sales {
        quiet(ConvModel { sales_buffer: m.sales_buffer.push(ev), ..m })
    } else if m.inside_purchase {
        quiet(ConvModel { purchase_buffer: m.purchase_buffer.push(ev), ..m })
    } else {
        StepModel { state: m, out: seq![OutputModel::Event(written)], error: None }
    }
}

pub open spec fn empty_step(m: ConvModel, t: TagModel) -> StepModel {
    passthrough_step(m, EventModel::Empty(t), EventModel::Empty(rewritten_tag(active_prefix(m), t)))
}

pub open spec fn other_step(m: ConvModel, ev: EventModel) -> StepModel {
    passthrough_step(m, ev, ev)
}

/// The end of a row: it is written with its choice element, its amounts are
/// reported, and it is counted unless it is `FP`.
pub open spec fn row_end_step(m: ConvModel, buf: Seq<EventModel>, sales: bool) -> StepModel {
    let counted = !is_fp(buf, sales);
    let report = RowReportModel { sales, counted, amounts: row_amounts(buf, sales) };
    let out = seq![OutputModel::Row(report)] + events_out(row_output(buf, active_prefix(m), sales));
    let state = if sales {
        ConvModel {
            sales_buffer: buf,
            inside_sales: false,
            count_sales: if counted { m.count_sales + 1 } else { m.count_sales },
            ..m
        }
    } else {
        ConvModel {
            purchase_buffer: buf,
            inside_purchase: false,
            count_purchase: if counted { m.count_purchase + 1 } else { m.count_purchase },
            ..m
        }
    };
    StepModel { state, out, error: None }
}

/// An end tag: it closes the innermost open buffer, and when that buffer is
/// complete, the block is processed; the V1 `Ewidencja` wrapper closes before
/// the root; other end tags are written under the prefix.
pub open spec fn end_step(m: ConvModel, n: Seq<u8>) -> StepModel {
    let local = local_name(n);
    let ev = EventModel::End(n);
    if m.inside_ctrl {
        let buf = m.ctrl_buffer.push(ev);
        if is_ctrl_name(local) {
            StepModel {
                state: ConvModel { inside_ctrl: false, ctrl_buffer: buf, ..m },
                out: match control_request(buf, active_prefix(m), m.count_sales, m.count_purchase) {
                    Some(q) => seq![OutputModel::Control(q)],
                    None => Seq::empty(),
                },
                error: None,
            }
        } else {
            quiet(ConvModel { ctrl_buffer: buf, ..m })
        }
    } else if m.inside_naglowek {
        let buf = m.naglowek_buffer.push(ev);
        if local == "Naglowek".spec_bytes() {
            let children = children_of(buf);
            let var = header_variant(children, m.explicit_variant, m.variant);
            let missing = kod_urzedu_missing(children, m.kod_urzedu, m.version);
            StepModel {
                state: ConvModel { inside_naglowek: false, naglowek_buffer: buf, variant: var, ..m },
                out: events_out(
                    if missing {
                        header_head(children, var, active_prefix(m))
                    } else {
                        header_output(children, var, m.kod_urzedu, active_prefix(m))
                    },
                ),
                error: if missing { Some(ConvertError::MissingKodUrzedu) } else { None },
            }
        } else {
            quiet(ConvModel { naglowek_buffer: buf, ..m })
        }
    } else if m.inside_podmiot {
        let buf = m.podmiot_buffer.push(ev);
        if local == "Podmiot1".spec_bytes() {
            let children = children_of(buf);
            StepModel {
                state: ConvModel {
                    inside_podmiot: false,
                    podmiot_buffer: buf,
                    taxpayer_nip: subject_nip(children, m.taxpayer_nip),
                    ..m
                },
                out: events_out(subject_output(children, m.variant, active_prefix(m))),
                error: None,
            }
        } else {
            quiet(ConvModel { podmiot_buffer: buf, ..m })
        }
    } else if local == "SprzedazWiersz".spec_bytes() && m.inside_sales {
        row_end_step(m, m.sales_buffer.push(ev), true)
    } else if local == "ZakupWiersz".spec_bytes() && m.inside_purchase {
        row_end_step(m, m.purchase_buffer.push(ev), false)
    } else if m.inside_sales {
        quiet(ConvModel { sales_buffer: m.sales_buffer.push(ev), ..m })
    } else if m.inside_purchase {
        quiet(ConvModel { purchase_buffer: m.purchase_buffer.push(ev), ..m })
    } else {
        let pre = if local == "JPK".spec_bytes() && m.version == FormVersion::V1 && m.has_started_ewidencja {
            seq![OutputModel::Event(EventModel::End(tag_name(active_prefix(m), "Ewidencja".spec_bytes())))]
        } else {
            Seq::empty()
        };
        StepModel { state: m, out: pre.push(OutputModel::Event(EventModel::End(renamed(active_prefix(m), n)))), error: None }
    }
}

/// The end tags that cannot be handled: one that closes a header whose dates
/// cannot be sliced, or a counted row when the row count is at the top of `usize`.
pub open spec fn end_panics(m: ConvModel, n: Seq<u8>) -> bool {
    let local = local_name(n);
    let ev = EventModel::End(n);
    if m.inside_ctrl {
        false
    } else if m.inside_naglowek {
        local == "Naglowek".spec_bytes() && header_panics(
            children_of(m.naglowek_buffer.push(ev)),
            m.explicit_variant,
            m.kod_urzedu,
            m.version,
        )
    } else if m.inside_podmiot {
        false
    } else if local == "SprzedazWiersz".spec_bytes() && m.inside_sales {
        !is_fp(m.sales_buffer.push(ev), true) && m.count_sales >= usize::MAX
    } else if local == "ZakupWiersz".spec_bytes() && m.inside_purchase {
        !is_fp(m.purchase_buffer.push(ev), false) && m.count_purchase >= usize::MAX
    } else {
        false
    }
}

/// What one event does.
pub open spec fn step(m: ConvModel, ev: EventModel) -> StepModel {
    match ev {
        EventModel::Start(t) => start_step(m, t),
        EventModel::Text(x) => text_step(m, x),
        EventModel::End(n) => end_step(m, n),
        EventModel::Empty(t) => empty_step(m, t),
        other => other_step(m, other),
    }
}

pub open spec fn step_panics(m: ConvModel, ev: EventModel) -> bool {
    match ev {
        EventModel::End(n) => end_panics(m, n),
        _ => false,
    }
}


// ---------------------------------------------------------------------------
// Executable state machine

/// The caller's tax office code, when given, is valid UTF-8.
pub open spec fn config_ok(m: ConvModel) -> bool {
    match m.kod_urzedu {
        Some(v) => valid_utf8(v),
        None => true,
    }
}

/// The conversion state.
pub struct ParserState {
    version: FormVersion,
    variant: FormVariant,
    has_checked_root: bool,
    root_prefix: Vec<u8>,
    target_prefix: Option<Vec<u8>>,
    inside_naglowek: bool,
    naglowek_buffer: Vec<XmlEvent>,
    inside_sales: bool,
    sales_buffer: Vec<XmlEvent>,
    inside_purchase: bool,
    purchase_buffer: Vec<XmlEvent>,
    inside_podmiot: bool,
    podmiot_buffer: Vec<XmlEvent>,
    inside_ctrl: bool,
    ctrl_buffer: Vec<XmlEvent>,
    has_started_ewidencja: bool,
    kod_urzedu: Option<Vec<u8>>,
    explicit_variant: FormVariant,
    taxpayer_nip: Option<Vec<u8>>,
    count_sales: usize,
    count_purchase: usize,
}

impl View for ParserState {
    type V = ConvModel;

    closed spec fn view(&self) -> ConvModel {
        ConvModel {
            version: self.version,
            variant: self.variant,
            has_checked_root: self.has_checked_root,
            root_prefix: self.root_prefix@,
            target_prefix: opt_bytes(self.target_prefix),
            inside_naglowek: self.inside_naglowek,
            naglowek_buffer: self.naglowek_buffer.deep_view(),
            inside_sales: self.inside_sales,
            sales_buffer: self.sales_buffer.deep_view(),
            inside_purchase: self.inside_purchase,
            purchase_buffer: self.purchase_buffer.deep_view(),
            inside_podmiot: self.inside_podmiot,
            podmiot_buffer: self.podmiot_buffer.deep_view(),
            inside_ctrl: self.inside_ctrl,
            ctrl_buffer: self.ctrl_buffer.deep_view(),
            has_started_ewidencja: self.has_started_ewidencja,
            kod_urzedu: opt_bytes(self.kod_urzedu),
            explicit_variant: self.explicit_variant,
            taxpayer_nip: opt_bytes(self.taxpayer_nip),
            count_sales: self.count_sales as nat,
            count_purchase: self.count_purchase as nat,
        }
    }
}

fn single(o: Output) -> (r: Vec<Output>)
    ensures
        r.deep_view() == seq![o@],
{
    let mut v: Vec<Output> = Vec::new();
    v.push(o);
    assert(v.deep_view() =~= seq![o@]);
    v
}

fn no_outputs() -> (r: Vec<Output>)
    ensures
        r.deep_view() == Seq::<OutputModel>::empty(),
{
    let v: Vec<Output> = Vec::new();
    assert(v.deep_view() =~= Seq::<OutputModel>::empty());
    v
}

/// Appends events as outputs to write.
fn push_events(out: &mut Vec<Output>, evs: &Vec<XmlEvent>)
    ensures
        final(out).deep_view() == old(out).deep_view() + events_out(evs.deep_view()),
{
    let ghost o = old(out).deep_view();
    let ghost e = evs.deep_view();
    let mut k: usize = 0;
    while k < evs.len()
        invariant
            e == evs.deep_view(),
            k <= e.len(),
            out.deep_view() == o + events_out(e.subrange(0, k as int)),
        decreases e.len() - k,
    {
        let ghost before = out.deep_view();
        out.push(Output::Event(evs[k].copy()));
        assert(out.deep_view() =~= before.push(OutputModel::Event(e[k as int])));
        assert(events_out(e.subrange(0, k + 1)) =~= events_out(e.subrange(0, k as int)).push(OutputModel::Event(e[k as int])));
        k = k + 1;
    }
    assert(e.subrange(0, e.len() as int) =~= e);
}


impl ParserState {
    /// A fresh state: the caller may fix the output prefix, the tax office code
    /// and the output variant.
    pub fn new(target_namespace: Option<Vec<u8>>, kod_urzedu: Option<Vec<u8>>, explicit_variant: FormVariant) -> (r: ParserState)
        requires
            match kod_urzedu {
                Some(v) => valid_utf8(v@),
                None => true,
            },
        ensures
            r@ == initial_state(opt_bytes(target_namespace), opt_bytes(kod_urzedu), explicit_variant),
            config_ok(r@),
    {
        let r = ParserState {
            version: FormVersion::Unknown,
            variant: FormVariant::Unknown,
            has_checked_root: false,
            root_prefix: Vec::new(),
            target_prefix: target_namespace,
            inside_naglowek: false,
            naglowek_buffer: Vec::new(),
            inside_sales: false,
            sales_buffer: Vec::new(),
            inside_purchase: false,
            purchase_buffer: Vec::new(),
            inside_podmiot: false,
            podmiot_buffer: Vec::new(),
            inside_ctrl: false,
            ctrl_buffer: Vec::new(),
            has_started_ewidencja: false,
            kod_urzedu,
            explicit_variant,
            taxpayer_nip: None,
            count_sales: 0,
            count_purchase: 0,
        };
        assert(r@ =~= initial_state(opt_bytes(target_namespace), opt_bytes(kod_urzedu), explicit_variant));
        r
    }

    fn active_prefix_vec(&self) -> (r: Vec<u8>)
        ensures
            r@ == active_prefix(self@),
    {
        match &self.target_prefix {
            Some(p) => copy_bytes(p.as_slice()),
            None => copy_bytes(self.root_prefix.as_slice()),
        }
    }

    /// Handles a start tag.
    pub fn handle_start_event(&mut self, t: Tag) -> (r: Step)
        ensures
            final(self)@ == start_step(old(self)@, t@).state,
            r.outputs.deep_view() == start_step(old(self)@, t@).out,
            r.error == start_step(old(self)@, t@).error,
    {
        let ghost m = self@;
        let ghost tv = t@;
        let (prefix, local) = split_name(t.name.as_slice());
        let prefix_v = copy_bytes(prefix);
        let is_jpk = is_lit(local, "JPK");
        let is_nag = is_lit(local, "Naglowek");
        let is_sctrl = is_lit(local, "SprzedazCtrl");
        let is_zctrl = is_lit(local, "ZakupCtrl");
        let is_pod = is_lit(local, "Podmiot1");
        let is_srow = is_lit(local, "SprzedazWiersz");
        let is_zrow = is_lit(local, "ZakupWiersz");
        if !self.has_checked_root && is_jpk {
            self.has_checked_root = true;
            self.root_prefix = prefix_v;
            if self.explicit_variant != FormVariant::Unknown {
                self.variant = self.explicit_variant;
            }
            let (ver, var) = detect_version(&first_keys_of(&t.attributes), self.root_prefix.as_slice(), self.version, self.variant);
            self.version = ver;
            self.variant = var;
            if ver == FormVersion::Unknown {
                return Step { outputs: no_outputs(), error: Some(ConvertError::UnrecognizedNamespace) };
            }
            if var == FormVariant::Unknown {
                self.variant = FormVariant::M;
            }
            let active = self.active_prefix_vec();
            let tag = root_tag(&t, active.as_slice(), self.variant);
            return Step { outputs: single(Output::Event(XmlEvent::Start(tag))), error: None };
        }
        if is_nag {
            self.inside_naglowek = true;
            self.naglowek_buffer = Vec::new();
            self.naglowek_buffer.push(XmlEvent::Start(t));
            assert(self.naglowek_buffer.deep_view() =~= seq![EventModel::Start(tv)]);
            return Step { outputs: no_outputs(), error: None };
        }
        if is_sctrl || is_zctrl {
            self.inside_ctrl = true;
            self.ctrl_buffer = Vec::new();
            self.ctrl_buffer.push(XmlEvent::Start(t));
            assert(self.ctrl_buffer.deep_view() =~= seq![EventModel::Start(tv)]);
            return Step { outputs: no_outputs(), error: None };
        }
        if self.inside_ctrl {
            self.ctrl_buffer.push(XmlEvent::Start(t));
            assert(self.ctrl_buffer.deep_view() =~= m.ctrl_buffer.push(EventModel::Start(tv)));
            return Step { outputs: no_outputs(), error: None };
        }
        if self.inside_naglowek {
            self.naglowek_buffer.push(XmlEvent::Start(t));
            assert(self.naglowek_buffer.deep_view() =~= m.naglowek_buffer.push(EventModel::Start(tv)));
            return Step { outputs: no_outputs(), error: None };
        }
        if is_pod {
            self.inside_podmiot = true;
            self.podmiot_buffer = Vec::new();
            self.podmiot_buffer.push(XmlEvent::Start(t));
            assert(self.podmiot_buffer.deep_view() =~= seq![EventModel::Start(tv)]);
            return Step { outputs: no_outputs(), error: None };
        }
        if self.inside_podmiot {
            self.podmiot_buffer.push(XmlEvent::Start(t));
            assert(self.podmiot_buffer.deep_view() =~= m.podmiot_buffer.push(EventModel::Start(tv)));
            return Step { outputs: no_outputs(), error: None };
        }
        let active = self.active_prefix_vec();
        let mut outputs = no_outputs();
        if self.version == FormVersion::V1 && !self.has_started_ewidencja && (is_srow || is_zrow || is_sctrl || is_zctrl) {
            let tag = build_tag(active.as_slice(), lit("Ewidencja").as_slice());
            outputs.push(Output::Event(XmlEvent::Start(Tag::bare(tag))));
            self.has_started_ewidencja = true;
        }
        let ghost pre = outputs.deep_view();
        if is_srow && !self.inside_purchase {
            self.inside_sales = true;
            self.sales_buffer = Vec::new();
            self.sales_buffer.push(XmlEvent::Start(t));
            assert(self.sales_buffer.deep_view() =~= seq![EventModel::Start(tv)]);
            return Step { outputs, error: None };
        }
        if is_zrow && !self.inside_sales {
            self.inside_purchase = true;
            self.purchase_buffer = Vec::new();
            self.purchase_buffer.push(XmlEvent::Start(t));
            assert(self.purchase_buffer.deep_view() =~= seq![EventModel::Start(tv)]);
            return Step { outputs, error: None };
        }
        if self.inside_sales {
            self.sales_buffer.push(XmlEvent::Start(t));
            assert(self.sales_buffer.deep_view() =~= m.sales_buffer.push(EventModel::Start(tv)));
            return Step { outputs, error: None };
        }
        if self.inside_purchase {
            self.purchase_buffer.push(XmlEvent::Start(t));
            assert(self.purchase_buffer.deep_view() =~= m.purchase_buffer.push(EventModel::Start(tv)));
            return Step { outputs, error: None };
        }
        outputs.push(Output::Event(XmlEvent::Start(rewrite_tag(active.as_slice(), &t))));
        Step { outputs, error: None }
    }

    /// Handles character data.
    pub fn handle_text_event(&mut self, x: Vec<u8>) -> (r: Step)
        ensures
            final(self)@ == text_step(old(self)@, x@).state,
            r.outputs.deep_view() == text_step(old(self)@, x@).out,
            r.error == text_step(old(self)@, x@).error,
    {
        let ghost m = self@;
        let ghost xv = x@;
        let ev = XmlEvent::Text(x);
        if self.inside_ctrl {
            self.ctrl_buffer.push(ev);
            assert(self.ctrl_buffer.deep_view() =~= m.ctrl_buffer.push(EventModel::Text(xv)));
            return Step { outputs: no_outputs(), error: None };
        }
        if self.inside_naglowek {
            self.naglowek_buffer.push(ev);
            assert(self.naglowek_buffer.deep_view() =~= m.naglowek_buffer.push(EventModel::Text(xv)));
            return Step { outputs: no_outputs(), error: None };
        }
        if self.inside_podmiot {
            self.podmiot_buffer.push(ev);
            assert(self.podmiot_buffer.deep_view() =~= m.podmiot_buffer.push(EventModel::Text(xv)));
            return Step { outputs: no_outputs(), error: None };
        }
        if self.inside_sales {
            self.sales_buffer.push(ev);
            assert(self.sales_buffer.deep_view() =~= m.sales_buffer.push(EventModel::Text(xv)));
            return Step { outputs: no_outputs(), error: None };
        }
        if self.inside_purchase {
            self.purchase_buffer.push(ev);
            assert(self.purchase_buffer.deep_view() =~= m.purchase_buffer.push(EventModel::Text(xv)));
            return Step { outputs: no_outputs(), error: None };
        }
        Step { outputs: single(Output::Event(ev)), error: None }
    }

    /// Buffers `ev` when a header, taxpayer or row block is open; otherwise
    /// gives back `written` to write.
    fn pass_through(&mut self, ev: XmlEvent, written: XmlEvent) -> (r: Step)
        ensures
            final(self)@ == passthrough_step(old(self)@, ev@, written@).state,
            r.outputs.deep_view() == passthrough_step(old(self)@, ev@, written@).out,
            r.error == passthrough_step(old(self)@, ev@, written@).error,
    {
        let ghost m = self@;
        let ghost evv = ev@;
        if self.inside_naglowek {
            self.naglowek_buffer.push(ev);
            assert(self.naglowek_buffer.deep_view() =~= m.naglowek_buffer.push(evv));
            return Step { outputs: no_outputs(), error: None };
        }
        if self.inside_podmiot {
            self.podmiot_buffer.push(ev);
            assert(self.podmiot_buffer.deep_view() =~= m.podmiot_buffer.push(evv));
            return Step { outputs: no_outputs(), error: None };
        }
        if self.inside_sales {
            self.sales_buffer.push(ev);
            assert(self.sales_buffer.deep_view() =~= m.sales_buffer.push(evv));
            return Step { outputs: no_outputs(), error: None };
        }
        if self.inside_purchase {
            self.purchase_buffer.push(ev);
            assert(self.purchase_buffer.deep_view() =~= m.purchase_buffer.push(evv));
            return Step { outputs: no_outputs(), error: None };
        }
        Step { outputs: single(Output::Event(written)), error: None }
    }

    /// Handles an empty-element tag.
    pub fn handle_empty_event(&mut self, t: Tag) -> (r: Step)
        ensures
            final(self)@ == empty_step(old(self)@, t@).state,
            r.outputs.deep_view() == empty_step(old(self)@, t@).out,
            r.error == empty_step(old(self)@, t@).error,
    {
        let active = self.active_prefix_vec();
        let written = XmlEvent::Empty(rewrite_tag(active.as_slice(), &t));
        self.pass_through(XmlEvent::Empty(t), written)
    }

    /// Handles a comment, CDATA section, declaration, processing instruction or doctype.
    pub fn handle_other_event(&mut self, ev: XmlEvent) -> (r: Step)
        requires
            !(ev is Start || ev is Empty || ev is End || ev is Text),
        ensures
            final(self)@ == other_step(old(self)@, ev@).state,
            r.outputs.deep_view() == other_step(old(self)@, ev@).out,
            r.error == other_step(old(self)@, ev@).error,
    {
        let written = ev.copy();
        self.pass_through(ev, written)
    }

    /// Processes a completed row.
    fn finish_row(&mut self, sales: bool) -> (r: Step)
        requires
            sales ==> !is_fp(old(self)@.sales_buffer, true) ==> old(self)@.count_sales < usize::MAX,
            !sales ==> !is_fp(old(self)@.purchase_buffer, false) ==> old(self)@.count_purchase < usize::MAX,
        ensures
            ({
                let m = old(self)@;
                let s = row_end_step(m, if sales { m.sales_buffer } else { m.purchase_buffer }, sales);
                &&& final(self)@ == s.state
                &&& r.outputs.deep_view() == s.out
                &&& r.error == s.error
            }),
    {
        let active = self.active_prefix_vec();
        let (evs, report) = if sales {
            process_row_buffer(self.sales_buffer.as_slice(), active.as_slice(), true)
        } else {
            process_row_buffer(self.purchase_buffer.as_slice(), active.as_slice(), false)
        };
        if report.counted {
            if sales {
                self.count_sales = self.count_sales + 1;
            } else {
                self.count_purchase = self.count_purchase + 1;
            }
        }
        if sales {
            self.inside_sales = false;
        } else {
            self.inside_purchase = false;
        }
        let mut outputs = single(Output::Row(report));
        push_events(&mut outputs, &evs);
        Step { outputs, error: None }
    }

    /// Handles an end tag.
    pub fn handle_end_event(&mut self, n: Vec<u8>) -> (r: Step)
        requires
            config_ok(old(self)@),
            !end_panics(old(self)@, n@),
        ensures
            final(self)@ == end_step(old(self)@, n@).state,
            r.outputs.deep_view() == end_step(old(self)@, n@).out,
            r.error == end_step(old(self)@, n@).error,
    {
        let ghost m = self@;
        let ghost nv = n@;
        let (_, local) = split_name(n.as_slice());
        let is_jpk = is_lit(local, "JPK");
        let is_nag = is_lit(local, "Naglowek");
        let is_ctrl = is_lit(local, "SprzedazCtrl") || is_lit(local, "ZakupCtrl");
        let is_pod = is_lit(local, "Podmiot1");
        let is_srow = is_lit(local, "SprzedazWiersz");
        let is_zrow = is_lit(local, "ZakupWiersz");
        let active = self.active_prefix_vec();
        if self.inside_ctrl {
            self.ctrl_buffer.push(XmlEvent::End(n));
            assert(self.ctrl_buffer.deep_view() =~= m.ctrl_buffer.push(EventModel::End(nv)));
            if is_ctrl {
                self.inside_ctrl = false;
                let outputs = match process_ctrl_buffer(self.ctrl_buffer.as_slice(), active.as_slice(), self.count_sales, self.count_purchase) {
                    Some(q) => single(Output::Control(q)),
                    None => no_outputs(),
                };
                return Step { outputs, error: None };
            }
            return Step { outputs: no_outputs(), error: None };
        }
        if self.inside_naglowek {
            self.naglowek_buffer.push(XmlEvent::End(n));
            assert(self.naglowek_buffer.deep_view() =~= m.naglowek_buffer.push(EventModel::End(nv)));
            if is_nag {
                self.inside_naglowek = false;
                let h = process_naglowek_buffer(
                    self.naglowek_buffer.as_slice(),
                    self.explicit_variant,
                    self.variant,
                    self.version,
                    &self.kod_urzedu,
                    active.as_slice(),
                );
                self.variant = h.variant;
                let mut outputs = no_outputs();
                push_events(&mut outputs, &h.events);
                let error = if h.missing_kod_urzedu { Some(ConvertError::MissingKodUrzedu) } else { None };
                return Step { outputs, error };
            }
            return Step { outputs: no_outputs(), error: None };
        }
        if self.inside_podmiot {
            self.podmiot_buffer.push(XmlEvent::End(n));
            assert(self.podmiot_buffer.deep_view() =~= m.podmiot_buffer.push(EventModel::End(nv)));
            if is_pod {
                self.inside_podmiot = false;
                let evs = process_podmiot_buffer(self.podmiot_buffer.as_slice(), self.variant, active.as_slice());
                let mut nip: Option<Vec<u8>> = None;
                std::mem::swap(&mut nip, &mut self.taxpayer_nip);
                self.taxpayer_nip = subject_nip_of(self.podmiot_buffer.as_slice(), nip);
                let mut outputs = no_outputs();
                push_events(&mut outputs, &evs);
                return Step { outputs, error: None };
            }
            return Step { outputs: no_outputs(), error: None };
        }
        if is_srow && self.inside_sales {
            self.sales_buffer.push(XmlEvent::End(n));
            assert(self.sales_buffer.deep_view() =~= m.sales_buffer.push(EventModel::End(nv)));
            return self.finish_row(true);
        }
        if is_zrow && self.inside_purchase {
            self.purchase_buffer.push(XmlEvent::End(n));
            assert(self.purchase_buffer.deep_view() =~= m.purchase_buffer.push(EventModel::End(nv)));
            return self.finish_row(false);
        }
        if self.inside_sales {
            self.sales_buffer.push(XmlEvent::End(n));
            assert(self.sales_buffer.deep_view() =~= m.sales_buffer.push(EventModel::End(nv)));
            return Step { outputs: no_outputs(), error: None };
        }
        if self.inside_purchase {
            self.purchase_buffer.push(XmlEvent::End(n));
            assert(self.purchase_buffer.deep_view() =~= m.purchase_buffer.push(EventModel::End(nv)));
            return Step { outputs: no_outputs(), error: None };
        }
        let mut outputs = no_outputs();
        if is_jpk && self.version == FormVersion::V1 && self.has_started_ewidencja {
            let tag = build_tag(active.as_slice(), lit("Ewidencja").as_slice());
            outputs.push(Output::Event(XmlEvent::End(tag)));
        }
        outputs.push(Output::Event(XmlEvent::End(rename(active.as_slice(), n.as_slice()))));
        Step { outputs, error: None }
    }

    /// Whether this end tag cannot be handled (see [`end_panics`]).
    pub fn end_would_panic(&self, n: &[u8]) -> (r: bool)
        ensures
            r == end_panics(self@, n@),
    {
        let ghost m = self@;
        let (_, local) = split_name(n);
        if self.inside_ctrl {
            return false;
        }
        if self.inside_naglowek {
            if !is_lit(local, "Naglowek") {
                return false;
            }
            let mut buf = crate::event::copy_events(self.naglowek_buffer.as_slice());
            buf.push(XmlEvent::End(copy_bytes(n)));
            assert(buf.deep_view() =~= m.naglowek_buffer.push(EventModel::End(n@)));
            return header_would_panic(buf.as_slice(), self.explicit_variant, &self.kod_urzedu, self.version);
        }
        if self.inside_podmiot {
            return false;
        }
        if is_lit(local, "SprzedazWiersz") && self.inside_sales {
            let mut buf = crate::event::copy_events(self.sales_buffer.as_slice());
            buf.push(XmlEvent::End(copy_bytes(n)));
            assert(buf.deep_view() =~= m.sales_buffer.push(EventModel::End(n@)));
            return !row_is_fp(buf.as_slice(), true) && self.count_sales == usize::MAX;
        }
        if is_lit(local, "ZakupWiersz") && self.inside_purchase {
            let mut buf = crate::event::copy_events(self.purchase_buffer.as_slice());
            buf.push(XmlEvent::End(copy_bytes(n)));
            assert(buf.deep_view() =~= m.purchase_buffer.push(EventModel::End(n@)));
            return !row_is_fp(buf.as_slice(), false) && self.count_purchase == usize::MAX;
        }
        false
    }

    /// Whether this event cannot be handled (see [`step_panics`]);
    /// callers test this before [`ParserState::handle_event`].
    pub fn would_panic(&self, ev: &XmlEvent) -> (r: bool)
        ensures
            r == step_panics(self@, ev@),
    {
        match ev {
            XmlEvent::End(n) => self.end_would_panic(n.as_slice()),
            _ => false,
        }
    }

    /// Handles one event of the input document.
    pub fn handle_event(&mut self, ev: XmlEvent) -> (r: Step)
        requires
            config_ok(old(self)@),
            !step_panics(old(self)@, ev@),
        ensures
            final(self)@ == step(old(self)@, ev@).state,
            r.outputs.deep_view() == step(old(self)@, ev@).out,
            r.error == step(old(self)@, ev@).error,
            config_ok(final(self)@),
    {
        proof {
            lemma_step_keeps_config(self@, ev@);
        }
        match ev {
            XmlEvent::Start(t) => self.handle_start_event(t),
            XmlEvent::Text(x) => self.handle_text_event(x),
            XmlEvent::End(n) => self.handle_end_event(n),
            XmlEvent::Empty(t) => self.handle_empty_event(t),
            other => self.handle_other_event(other),
        }
    }

    /// Handles one event unless it cannot be handled (see [`step_panics`]):
    /// `None`, with the state unchanged, exactly on those events.
    pub fn try_handle_event(&mut self, ev: XmlEvent) -> (r: Option<Step>)
        requires
            config_ok(old(self)@),
        ensures
            r is None <==> step_panics(old(self)@, ev@),
            r is None ==> final(self)@ == old(self)@,
            r matches Some(s) ==> final(self)@ == step(old(self)@, ev@).state && s.outputs.deep_view() == step(
                old(self)@,
                ev@,
            ).out && s.error == step(old(self)@, ev@).error,
            config_ok(final(self)@),
    {
        if self.would_panic(&ev) {
            None
        } else {
            Some(self.handle_event(ev))
        }
    }

    /// The end of the input: an error when no `JPK` root was found.
    pub fn finish(&self) -> (r: Result<(), ConvertError>)
        ensures
            r is Ok <==> self@.has_checked_root,
            r matches Err(e) ==> e == ConvertError::NoRoot,
    {
        if self.has_checked_root {
            Ok(())
        } else {
            Err(ConvertError::NoRoot)
        }
    }

    /// The version of the input form.
    pub fn version(&self) -> (r: FormVersion)
        ensures
            r == self@.version,
    {
        self.version
    }

    /// The variant of the output form.
    pub fn variant(&self) -> (r: FormVariant)
        ensures
            r == self@.variant,
    {
        self.variant
    }

    /// The taxpayer's NIP, when found.
    pub fn taxpayer_nip(&self) -> (r: Option<Vec<u8>>)
        ensures
            opt_bytes(r) == self@.taxpayer_nip,
    {
        match &self.taxpayer_nip {
            Some(v) => Some(copy_bytes(v.as_slice())),
            None => None,
        }
    }

    /// The number of counted sales rows.
    pub fn count_sales(&self) -> (r: usize)
        ensures
            r == self@.count_sales,
    {
        self.count_sales
    }

    /// The number of counted purchase rows.
    pub fn count_purchase(&self) -> (r: usize)
        ensures
            r == self@.count_purchase,
    {
        self.count_purchase
    }
}

/// A step changes neither the caller's prefix nor the caller's tax office code.
pub proof fn lemma_step_keeps_config(m: ConvModel, ev: EventModel)
    ensures
        step(m, ev).state.kod_urzedu == m.kod_urzedu,
        step(m, ev).state.target_prefix == m.target_prefix,
        step(m, ev).state.explicit_variant == m.explicit_variant,
{
}

} // verus!
