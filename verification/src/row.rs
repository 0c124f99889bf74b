//! Rewriting of one sales (`SprzedazWiersz`) or purchase (`ZakupWiersz`) row:
//! the mandatory `BFK`/`DI` choice element is injected after the row's date,
//! address blocks are dropped, and the row's amounts are classified.
use vstd::prelude::*;
use vstd::string::*;
use vstd::utf8::*;
use crate::event::{
    EventModel, TagModel, Tag, XmlEvent, is_lit, lit, rename, renamed, rewrite_tag,
    rewritten_tag,
};
use crate::names::{build_tag, local_name, split_name, tag_name};
use crate::text::{is_valid_utf8, trim_utf8, trimmed, utf8_or_empty, utf8_or_empty_vec};

verus! {

// ---------------------------------------------------------------------------
// Names a row is read by

/// The date element after which the choice element goes, first form.
pub open spec fn date1_name(sales: bool) -> Seq<u8> {
    if sales {
        "DataWystawienia".spec_bytes()
    } else {
        "DataZakupu".spec_bytes()
    }
}

/// The date element after which the choice element goes, second form.
pub open spec fn date2_name(sales: bool) -> Seq<u8> {
    if sales {
        "DataSprzedazy".spec_bytes()
    } else {
        "DataWplywu".spec_bytes()
    }
}

/// The element that holds the document type of the row.
pub open spec fn doc_type_name(sales: bool) -> Seq<u8> {
    if sales {
        "TypDokumentu".spec_bytes()
    } else {
        "DokumentZakupu".spec_bytes()
    }
}

pub open spec fn is_address_name(l: Seq<u8>) -> bool {
    l == "AdresKontrahenta".spec_bytes() || l == "AdresDostawcy".spec_bytes()
}

/// The elements that already make the row's choice.
pub open spec fn is_choice_name(l: Seq<u8>) -> bool {
    l == "DI".spec_bytes() || l == "BFK".spec_bytes() || l == "OFF".spec_bytes() || l
        == "NrKSeF".spec_bytes()
}

// ---------------------------------------------------------------------------
// Where the choice element goes

pub open spec fn ends_date(ev: EventModel, sales: bool) -> bool {
    match ev {
        EventModel::End(n) => local_name(n) == date1_name(sales) || local_name(n) == date2_name(
            sales,
        ),
        _ => false,
    }
}

/// One past the position of the last end tag of a date element; 0 when the row has none.
pub open spec fn insert_index(buf: Seq<EventModel>, sales: bool) -> int
    decreases buf.len(),
{
    if buf.len() == 0 {
        0
    } else if ends_date(buf.last(), sales) {
        buf.len() as int
    } else {
        insert_index(buf.drop_last(), sales)
    }
}

pub proof fn lemma_insert_index_bound(buf: Seq<EventModel>, sales: bool)
    ensures
        0 <= insert_index(buf, sales) <= buf.len(),
    decreases buf.len(),
{
    if buf.len() > 0 {
        lemma_insert_index_bound(buf.drop_last(), sales);
    }
}

// ---------------------------------------------------------------------------
// Document type

/// The trimmed text right after the start tag at `i`, when that start tag is
/// `name` and the next event is UTF-8 text.
pub open spec fn text_after(buf: Seq<EventModel>, i: int, name: Seq<u8>) -> Option<Seq<u8>> {
    match buf[i] {
        EventModel::Start(t) => if local_name(t.name) == name && i + 1 < buf.len() {
            match buf[i + 1] {
                EventModel::Text(x) => if valid_utf8(x) {
                    Some(trimmed(x))
                } else {
                    None
                },
                _ => None,
            }
        } else {
            None
        },
        _ => None,
    }
}

/// The document type found among the first `n` events: the last one found, empty when none.
pub open spec fn doc_type_upto(buf: Seq<EventModel>, name: Seq<u8>, n: int) -> Seq<u8>
    decreases n,
{
    if n <= 0 {
        Seq::empty()
    } else {
        match text_after(buf, n - 1, name) {
            Some(v) => v,
            None => doc_type_upto(buf, name, n - 1),
        }
    }
}

/// The document type of a row.
pub open spec fn doc_type(buf: Seq<EventModel>, sales: bool) -> Seq<u8> {
    doc_type_upto(buf, doc_type_name(sales), buf.len() as int)
}

/// A row whose document type is `FP` adds nothing to the totals.
pub open spec fn is_fp(buf: Seq<EventModel>, sales: bool) -> bool {
    doc_type(buf, sales) == "FP".spec_bytes()
}

/// Internal and `RO` documents take `DI`, all others `BFK`.
pub open spec fn uses_di(buf: Seq<EventModel>, sales: bool) -> bool {
    doc_type(buf, sales) == "WEW".spec_bytes() || doc_type(buf, sales) == "RO".spec_bytes()
}

pub open spec fn choice_local(buf: Seq<EventModel>, sales: bool) -> Seq<u8> {
    if uses_di(buf, sales) {
        "DI".spec_bytes()
    } else {
        "BFK".spec_bytes()
    }
}

// ---------------------------------------------------------------------------
// Amounts

/// What a row's amount field adds to.
#[derive(PartialEq, Eq, Structural, Clone, Copy, Debug)]
pub enum RowPart {
    Neither,
    Base,
    Vat,
}

/// The tax-rate bucket of a sales amount.
#[derive(PartialEq, Eq, Structural, Clone, Copy, Debug)]
pub enum Bucket {
    Neither,
    Base5,
    Base8,
    Base23,
    BaseOther,
    Vat5,
    Vat8,
    Vat23,
    VatOther,
}

/// The control-total accumulator an amount adds to.
#[derive(PartialEq, Eq, Structural, Clone, Copy, Debug)]
pub enum ControlField {
    Neither,
    K16,
    K18,
    K20,
    K24,
    K26,
    K28,
    K30,
    K32,
    K33,
    K34,
    K35,
    K36,
    K360,
    K41,
    K43,
    K44,
    K45,
    K46,
    K47,
}

/// Everything an amount field adds to.
#[derive(PartialEq, Eq, Structural, Clone, Copy, Debug)]
pub struct AmountRole {
    pub row: RowPart,
    pub bucket: Bucket,
    pub control: ControlField,
}

pub open spec fn is_base_code(c: Seq<u8>) -> bool {
    ||| c == "K_10".spec_bytes()
    ||| c == "K_11".spec_bytes()
    ||| c == "K_13".spec_bytes()
    ||| c == "K_15".spec_bytes()
    ||| c == "K_17".spec_bytes()
    ||| c == "K_19".spec_bytes()
    ||| c == "K_21".spec_bytes()
    ||| c == "K_23".spec_bytes()
    ||| c == "K_25".spec_bytes()
    ||| c == "K_27".spec_bytes()
    ||| c == "K_29".spec_bytes()
    ||| c == "K_31".spec_bytes()
}

pub open spec fn is_vat_code(c: Seq<u8>) -> bool {
    ||| c == "K_16".spec_bytes()
    ||| c == "K_18".spec_bytes()
    ||| c == "K_20".spec_bytes()
    ||| c == "K_22".spec_bytes()
    ||| c == "K_24".spec_bytes()
    ||| c == "K_26".spec_bytes()
    ||| c == "K_28".spec_bytes()
    ||| c == "K_30".spec_bytes()
    ||| c == "K_32".spec_bytes()
    ||| c == "K_33".spec_bytes()
    ||| c == "K_34".spec_bytes()
    ||| c == "K_35".spec_bytes()
    ||| c == "K_36".spec_bytes()
    ||| c == "K_360".spec_bytes()
}

pub open spec fn is_purchase_base_code(c: Seq<u8>) -> bool {
    c == "K_40".spec_bytes() || c == "K_42".spec_bytes()
}

pub open spec fn is_purchase_vat_code(c: Seq<u8>) -> bool {
    ||| c == "K_41".spec_bytes()
    ||| c == "K_43".spec_bytes()
    ||| c == "K_44".spec_bytes()
    ||| c == "K_45".spec_bytes()
    ||| c == "K_46".spec_bytes()
    ||| c == "K_47".spec_bytes()
}

/// Row base or VAT: sales-side codes count unless the row is `FP`; purchase-side codes always.
pub open spec fn row_part_of(c: Seq<u8>, fp: bool) -> RowPart {
    if is_base_code(c) {
        if fp {
            RowPart::Neither
        } else {
            RowPart::Base
        }
    } else if is_vat_code(c) {
        if fp {
            RowPart::Neither
        } else {
            RowPart::Vat
        }
    } else if is_purchase_base_code(c) {
        RowPart::Base
    } else if is_purchase_vat_code(c) {
        RowPart::Vat
    } else {
        RowPart::Neither
    }
}

/// The rate bucket: only for sales rows that are not `FP`.
pub open spec fn bucket_of(c: Seq<u8>, sales: bool, fp: bool) -> Bucket {
    if !sales || fp {
        Bucket::Neither
    } else if is_base_code(c) {
        if c == "K_15".spec_bytes() {
            Bucket::Base5
        } else if c == "K_17".spec_bytes() {
            Bucket::Base8
        } else if c == "K_19".spec_bytes() {
            Bucket::Base23
        } else {
            Bucket::BaseOther
        }
    } else if is_vat_code(c) {
        if c == "K_16".spec_bytes() {
            Bucket::Vat5
        } else if c == "K_18".spec_bytes() {
            Bucket::Vat8
        } else if c == "K_20".spec_bytes() {
            Bucket::Vat23
        } else {
            Bucket::VatOther
        }
    } else {
        Bucket::Neither
    }
}

/// The control accumulator: the sales ones unless the row is `FP`, the purchase ones always.
pub open spec fn control_of(c: Seq<u8>, fp: bool) -> ControlField {
    if c == "K_41".spec_bytes() {
        ControlField::K41
    } else if c == "K_43".spec_bytes() {
        ControlField::K43
    } else if c == "K_44".spec_bytes() {
        ControlField::K44
    } else if c == "K_45".spec_bytes() {
        ControlField::K45
    } else if c == "K_46".spec_bytes() {
        ControlField::K46
    } else if c == "K_47".spec_bytes() {
        ControlField::K47
    } else if fp {
        ControlField::Neither
    } else if c == "K_16".spec_bytes() {
        ControlField::K16
    } else if c == "K_18".spec_bytes() {
        ControlField::K18
    } else if c == "K_20".spec_bytes() {
        ControlField::K20
    } else if c == "K_24".spec_bytes() {
        ControlField::K24
    } else if c == "K_26".spec_bytes() {
        ControlField::K26
    } else if c == "K_28".spec_bytes() {
        ControlField::K28
    } else if c == "K_30".spec_bytes() {
        ControlField::K30
    } else if c == "K_32".spec_bytes() {
        ControlField::K32
    } else if c == "K_33".spec_bytes() {
        ControlField::K33
    } else if c == "K_34".spec_bytes() {
        ControlField::K34
    } else if c == "K_35".spec_bytes() {
        ControlField::K35
    } else if c == "K_36".spec_bytes() {
        ControlField::K36
    } else if c == "K_360".spec_bytes() {
        ControlField::K360
    } else {
        ControlField::Neither
    }
}

pub open spec fn role_of(c: Seq<u8>, sales: bool, fp: bool) -> AmountRole {
    AmountRole { row: row_part_of(c, fp), bucket: bucket_of(c, sales, fp), control: control_of(c, fp) }
}

/// Classifies an amount field by its code.
pub fn classify_amount(code: &[u8], sales: bool, fp: bool) -> (r: AmountRole)
    ensures
        r == role_of(code@, sales, fp),
{
    let base = is_lit(code, "K_10") || is_lit(code, "K_11") || is_lit(code, "K_13") || is_lit(code, "K_15")
        || is_lit(code, "K_17") || is_lit(code, "K_19") || is_lit(code, "K_21") || is_lit(code, "K_23")
        || is_lit(code, "K_25") || is_lit(code, "K_27") || is_lit(code, "K_29") || is_lit(code, "K_31");
    let vat = is_lit(code, "K_16") || is_lit(code, "K_18") || is_lit(code, "K_20") || is_lit(code, "K_22")
        || is_lit(code, "K_24") || is_lit(code, "K_26") || is_lit(code, "K_28") || is_lit(code, "K_30")
        || is_lit(code, "K_32") || is_lit(code, "K_33") || is_lit(code, "K_34") || is_lit(code, "K_35")
        || is_lit(code, "K_36") || is_lit(code, "K_360");
    let pbase = is_lit(code, "K_40") || is_lit(code, "K_42");
    let pvat = is_lit(code, "K_41") || is_lit(code, "K_43") || is_lit(code, "K_44") || is_lit(code, "K_45")
        || is_lit(code, "K_46") || is_lit(code, "K_47");
    let row = if base {
        if fp { RowPart::Neither } else { RowPart::Base }
    } else if vat {
        if fp { RowPart::Neither } else { RowPart::Vat }
    } else if pbase {
        RowPart::Base
    } else if pvat {
        RowPart::Vat
    } else {
        RowPart::Neither
    };
    let bucket = if !sales || fp {
        Bucket::Neither
    } else if base {
        if is_lit(code, "K_15") {
            Bucket::Base5
        } else if is_lit(code, "K_17") {
            Bucket::Base8
        } else if is_lit(code, "K_19") {
            Bucket::Base23
        } else {
            Bucket::BaseOther
        }
    } else if vat {
        if is_lit(code, "K_16") {
            Bucket::Vat5
        } else if is_lit(code, "K_18") {
            Bucket::Vat8
        } else if is_lit(code, "K_20") {
            Bucket::Vat23
        } else {
            Bucket::VatOther
        }
    } else {
        Bucket::Neither
    };
    let control = if is_lit(code, "K_41") {
        ControlField::K41
    } else if is_lit(code, "K_43") {
        ControlField::K43
    } else if is_lit(code, "K_44") {
        ControlField::K44
    } else if is_lit(code, "K_45") {
        ControlField::K45
    } else if is_lit(code, "K_46") {
        ControlField::K46
    } else if is_lit(code, "K_47") {
        ControlField::K47
    } else if fp {
        ControlField::Neither
    } else if is_lit(code, "K_16") {
        ControlField::K16
    } else if is_lit(code, "K_18") {
        ControlField::K18
    } else if is_lit(code, "K_20") {
        ControlField::K20
    } else if is_lit(code, "K_24") {
        ControlField::K24
    } else if is_lit(code, "K_26") {
        ControlField::K26
    } else if is_lit(code, "K_28") {
        ControlField::K28
    } else if is_lit(code, "K_30") {
        ControlField::K30
    } else if is_lit(code, "K_32") {
        ControlField::K32
    } else if is_lit(code, "K_33") {
        ControlField::K33
    } else if is_lit(code, "K_34") {
        ControlField::K34
    } else if is_lit(code, "K_35") {
        ControlField::K35
    } else if is_lit(code, "K_36") {
        ControlField::K36
    } else if is_lit(code, "K_360") {
        ControlField::K360
    } else {
        ControlField::Neither
    };
    AmountRole { row, bucket, control }
}


/// An amount field of a row: its code, its trimmed text and what it adds to.
pub struct Amount {
    pub role: AmountRole,
    pub code: Vec<u8>,
    pub text: Vec<u8>,
}

pub struct AmountModel {
    pub role: AmountRole,
    pub code: Seq<u8>,
    pub text: Seq<u8>,
}

impl View for Amount {
    type V = AmountModel;

    open spec fn view(&self) -> AmountModel {
        AmountModel { role: self.role, code: self.code@, text: self.text@ }
    }
}

impl DeepView for Amount {
    type V = AmountModel;

    open spec fn deep_view(&self) -> AmountModel {
        self@
    }
}

pub open spec fn starts_with_k(code: Seq<u8>) -> bool {
    code.len() >= 2 && code[0] == 75u8 && code[1] == 95u8
}

/// The amount field whose start tag is at `i`: a `K_...` element followed by UTF-8 text.
pub open spec fn amount_at(buf: Seq<EventModel>, i: int, sales: bool, fp: bool) -> Option<
    AmountModel,
> {
    match buf[i] {
        EventModel::Start(t) => {
            let code = utf8_or_empty(local_name(t.name));
            if starts_with_k(code) && i + 1 < buf.len() {
                match buf[i + 1] {
                    EventModel::Text(x) => if valid_utf8(x) {
                        Some(AmountModel { role: role_of(code, sales, fp), code, text: trimmed(x) })
                    } else {
                        None
                    },
                    _ => None,
                }
            } else {
                None
            }
        },
        _ => None,
    }
}

pub open spec fn amounts_upto(buf: Seq<EventModel>, n: int, sales: bool, fp: bool) -> Seq<
    AmountModel,
>
    decreases n,
{
    if n <= 0 {
        Seq::empty()
    } else {
        let prev = amounts_upto(buf, n - 1, sales, fp);
        match amount_at(buf, n - 1, sales, fp) {
            Some(a) => prev.push(a),
            None => prev,
        }
    }
}

/// The amount fields of a row, in document order.
#[verifier::opaque]
pub open spec fn row_amounts(buf: Seq<EventModel>, sales: bool) -> Seq<AmountModel> {
    amounts_upto(buf, buf.len() as int, sales, is_fp(buf, sales))
}

/// What a processed row tells the caller: whether it is a sales row, whether
/// it counts (it is not `FP`), and its amount fields.
pub struct RowReport {
    pub sales: bool,
    pub counted: bool,
    pub amounts: Vec<Amount>,
}

// ---------------------------------------------------------------------------
// The rewritten row

/// The injected choice element: `<local>1</local>` under the prefix.
pub open spec fn choice_events(prefix: Seq<u8>, local: Seq<u8>) -> Seq<EventModel> {
    let n = tag_name(prefix, local);
    seq![
        EventModel::Start(TagModel { name: n, attributes: Seq::empty() }),
        EventModel::Text("1".spec_bytes()),
        EventModel::End(n),
    ]
}

pub struct WalkModel {
    pub out: Seq<EventModel>,
    pub skip: nat,
    pub inserted: bool,
}

/// The number of address blocks open in front of the event at `i`: the events
/// inside them are dropped.
pub open spec fn skip_depth(buf: Seq<EventModel>, i: int) -> nat
    decreases i,
{
    if i <= 0 {
        0
    } else {
        let d = skip_depth(buf, i - 1);
        match buf[i - 1] {
            EventModel::Start(t) => if is_address_name(local_name(t.name)) || d > 0 {
                d + 1
            } else {
                0
            },
            EventModel::End(_) => if d > 0 {
                (d - 1) as nat
            } else {
                0
            },
            _ => d,
        }
    }
}

/// The event at `i` is a choice element (`DI`, `BFK`, `OFF`, `NrKSeF`) that
/// the row writes, that is one outside its address blocks.
pub open spec fn writes_choice_at(buf: Seq<EventModel>, i: int) -> bool {
    &&& skip_depth(buf, i) == 0
    &&& match buf[i] {
        EventModel::Start(t) => is_choice_name(local_name(t.name)),
        EventModel::Empty(t) => is_choice_name(local_name(t.name)),
        _ => false,
    }
}

/// How many choice elements of its own the row writes among its first `n` events.
pub open spec fn own_choices(buf: Seq<EventModel>, n: int) -> nat
    decreases n,
{
    if n <= 0 {
        0
    } else {
        own_choices(buf, n - 1) + if writes_choice_at(buf, n - 1) { 1nat } else { 0nat }
    }
}

/// The row already writes a choice element of its own; none is injected then.
pub open spec fn has_own_choice(buf: Seq<EventModel>) -> bool {
    own_choices(buf, buf.len() as int) > 0
}

/// One event of the row as written: address blocks (with everything inside
/// them) are dropped; other elements are written under the prefix.
pub open spec fn row_event(w: WalkModel, ev: EventModel, prefix: Seq<u8>) -> WalkModel {
    match ev {
        EventModel::Start(t) => {
            if is_address_name(local_name(t.name)) || w.skip > 0 {
                WalkModel { skip: w.skip + 1, ..w }
            } else {
                WalkModel { out: w.out.push(EventModel::Start(rewritten_tag(prefix, t))), skip: 0, ..w }
            }
        },
        EventModel::End(nm) => {
            if w.skip > 0 {
                WalkModel { skip: (w.skip - 1) as nat, ..w }
            } else {
                WalkModel { out: w.out.push(EventModel::End(renamed(prefix, nm))), skip: 0, ..w }
            }
        },
        EventModel::Empty(t) => {
            if is_address_name(local_name(t.name)) || w.skip > 0 {
                w
            } else {
                WalkModel { out: w.out.push(EventModel::Empty(rewritten_tag(prefix, t))), skip: 0, ..w }
            }
        },
        other => {
            if w.skip > 0 {
                w
            } else {
                WalkModel { out: w.out.push(other), skip: 0, ..w }
            }
        },
    }
}

/// One event of the row, before its last: the choice element goes in front of
/// the event at the insertion point, unless the row has one of its own.
pub open spec fn row_step(w: WalkModel, buf: Seq<EventModel>, i: int, prefix: Seq<u8>, sales: bool) -> WalkModel {
    let ins = insert_index(buf, sales);
    let here = i == ins && ins > 0 && i + 1 < buf.len() && !has_own_choice(buf);
    let w1 = if here {
        WalkModel { out: w.out + choice_events(prefix, choice_local(buf, sales)), inserted: true, ..w }
    } else {
        w
    };
    row_event(w1, buf[i], prefix)
}

pub open spec fn row_walk(buf: Seq<EventModel>, n: int, prefix: Seq<u8>, sales: bool) -> WalkModel
    decreases n,
{
    if n <= 0 {
        WalkModel { out: Seq::empty(), skip: 0, inserted: false }
    } else {
        row_step(row_walk(buf, n - 1, prefix, sales), buf, n - 1, prefix, sales)
    }
}

/// The events written for a row. Unless the row has a choice element of its
/// own, exactly one is injected: after the last date element, or, when there
/// is none (or it closes just before the row's end), in front of the row's
/// own end tag.
#[verifier::opaque]
pub open spec fn row_output(buf: Seq<EventModel>, prefix: Seq<u8>, sales: bool) -> Seq<EventModel> {
    let c = choice_events(prefix, choice_local(buf, sales));
    if buf.len() == 0 {
        c
    } else {
        let w = row_walk(buf, buf.len() - 1, prefix, sales);
        let mid = if has_own_choice(buf) || w.inserted { w.out } else { w.out + c };
        row_event(WalkModel { out: mid, skip: w.skip, inserted: true }, buf.last(), prefix).out
    }
}

fn push_choice(out: &mut Vec<XmlEvent>, prefix: &[u8], local: &[u8])
    ensures
        final(out).deep_view() == old(out).deep_view() + choice_events(prefix@, local@),
{
    let ghost o = old(out).deep_view();
    let n = build_tag(prefix, local);
    let n2 = crate::event::copy_bytes(n.as_slice());
    out.push(XmlEvent::Start(Tag::bare(n)));
    out.push(XmlEvent::Text(lit("1")));
    out.push(XmlEvent::End(n2));
    assert(out.deep_view() =~= o + choice_events(prefix@, local@));
}

fn find_insert_index(buf: &[XmlEvent], sales: bool) -> (r: usize)
    ensures
        r == insert_index(buf.deep_view(), sales),
{
    let d1 = if sales { lit("DataWystawienia") } else { lit("DataZakupu") };
    let d2 = if sales { lit("DataSprzedazy") } else { lit("DataWplywu") };
    let mut r: usize = 0;
    let mut i: usize = 0;
    while i < buf.len()
        invariant
            i <= buf@.len(),
            d1@ == date1_name(sales),
            d2@ == date2_name(sales),
            r == insert_index(buf.deep_view().subrange(0, i as int), sales),
        decreases buf@.len() - i,
    {
        assert(buf.deep_view().subrange(0, i + 1).drop_last() =~= buf.deep_view().subrange(0, i as int));
        if let XmlEvent::End(n) = &buf[i] {
            let (_, l) = split_name(n.as_slice());
            if crate::event::bytes_eq(l, d1.as_slice()) || crate::event::bytes_eq(l, d2.as_slice()) {
                r = i + 1;
            }
        }
        i = i + 1;
    }
    assert(buf.deep_view().subrange(0, buf@.len() as int) =~= buf.deep_view());
    r
}

/// The trimmed UTF-8 text right after the start tag at `i`, if that start tag is `name`.
fn text_after_exec(buf: &[XmlEvent], i: usize, name: &[u8]) -> (r: Option<Vec<u8>>)
    requires
        i < buf@.len(),
    ensures
        r matches Some(v) ==> text_after(buf.deep_view(), i as int, name@) == Some(v@),
        r is None ==> text_after(buf.deep_view(), i as int, name@) is None,
{
    if let XmlEvent::Start(t) = &buf[i] {
        let (_, l) = split_name(t.name.as_slice());
        if crate::event::bytes_eq(l, name) && i + 1 < buf.len() {
            if let XmlEvent::Text(x) = &buf[i + 1] {
                if is_valid_utf8(x.as_slice()) {
                    return Some(trim_utf8(x.as_slice()));
                }
            }
        }
    }
    None
}

fn find_doc_type(buf: &[XmlEvent], sales: bool) -> (r: Vec<u8>)
    ensures
        r@ == doc_type(buf.deep_view(), sales),
{
    let name = if sales { lit("TypDokumentu") } else { lit("DokumentZakupu") };
    let mut v: Vec<u8> = Vec::new();
    let mut i: usize = 0;
    while i < buf.len()
        invariant
            i <= buf@.len(),
            name@ == doc_type_name(sales),
            v@ == doc_type_upto(buf.deep_view(), name@, i as int),
        decreases buf@.len() - i,
    {
        match text_after_exec(buf, i, name.as_slice()) {
            Some(x) => {
                v = x;
            },
            None => {},
        }
        i = i + 1;
    }
    v
}

fn collect_amounts(buf: &[XmlEvent], sales: bool, fp: bool) -> (r: Vec<Amount>)
    ensures
        r.deep_view() == amounts_upto(buf.deep_view(), buf@.len() as int, sales, fp),
{
    let mut r: Vec<Amount> = Vec::new();
    let mut i: usize = 0;
    while i < buf.len()
        invariant
            i <= buf@.len(),
            r.deep_view() == amounts_upto(buf.deep_view(), i as int, sales, fp),
        decreases buf@.len() - i,
    {
        let ghost r0 = r.deep_view();
        if let XmlEvent::Start(t) = &buf[i] {
            let (_, l) = split_name(t.name.as_slice());
            let code = utf8_or_empty_vec(l);
            if code.len() >= 2 && code[0] == 75u8 && code[1] == 95u8 && i + 1 < buf.len() {
                if let XmlEvent::Text(x) = &buf[i + 1] {
                    if is_valid_utf8(x.as_slice()) {
                        let role = classify_amount(code.as_slice(), sales, fp);
                        let text = trim_utf8(x.as_slice());
                        r.push(Amount { role, code, text });
                        assert(r.deep_view() =~= r0.push(amount_at(buf.deep_view(), i as int, sales, fp).unwrap()));
                    }
                }
            }
        }
        i = i + 1;
    }
    r
}

/// Whether the buffered row is an `FP` document.
pub fn row_is_fp(buf: &[XmlEvent], sales: bool) -> (r: bool)
    ensures
        r == is_fp(buf.deep_view(), sales),
{
    let dt = find_doc_type(buf, sales);
    is_lit(dt.as_slice(), "FP")
}

/// Whether the row writes a choice element of its own.
fn find_own_choice(buf: &[XmlEvent]) -> (r: bool)
    ensures
        r == has_own_choice(buf.deep_view()),
{
    let ghost bv = buf.deep_view();
    let mut skip: usize = 0;
    let mut found = false;
    let mut i: usize = 0;
    while i < buf.len()
        invariant
            i <= bv.len(),
            bv == buf.deep_view(),
            skip == skip_depth(bv, i as int),
            skip <= i,
            found == (own_choices(bv, i as int) > 0),
        decreases bv.len() - i,
    {
        match &buf[i] {
            XmlEvent::Start(t) => {
                let (_, l) = split_name(t.name.as_slice());
                let ch = is_lit(l, "DI") || is_lit(l, "BFK") || is_lit(l, "OFF") || is_lit(l, "NrKSeF");
                if skip == 0 && ch {
                    found = true;
                }
                if is_lit(l, "AdresKontrahenta") || is_lit(l, "AdresDostawcy") || skip > 0 {
                    skip = skip + 1;
                } else {
                    skip = 0;
                }
            },
            XmlEvent::Empty(t) => {
                let (_, l) = split_name(t.name.as_slice());
                let ch = is_lit(l, "DI") || is_lit(l, "BFK") || is_lit(l, "OFF") || is_lit(l, "NrKSeF");
                if skip == 0 && ch {
                    found = true;
                }
            },
            XmlEvent::End(_) => {
                if skip > 0 {
                    skip = skip - 1;
                }
            },
            _ => {},
        }
        i = i + 1;
    }
    found
}

/// Writes one event of a row, given the number of address blocks open in
/// front of it; returns that number after it.
fn push_row_event(out: &mut Vec<XmlEvent>, skip: usize, ev: &XmlEvent, prefix: &[u8]) -> (r: usize)
    requires
        skip < usize::MAX,
    ensures
        ({
            let w = row_event(WalkModel { out: old(out).deep_view(), skip: skip as nat, inserted: false }, ev@, prefix@);
            &&& final(out).deep_view() == w.out
            &&& r == w.skip
        }),
{
    let ghost o1 = out.deep_view();
    match ev {
        XmlEvent::Start(t) => {
            let (_, l) = split_name(t.name.as_slice());
            if is_lit(l, "AdresKontrahenta") || is_lit(l, "AdresDostawcy") || skip > 0 {
                skip + 1
            } else {
                out.push(XmlEvent::Start(rewrite_tag(prefix, t)));
                assert(out.deep_view() =~= o1.push(EventModel::Start(rewritten_tag(prefix@, t@))));
                0
            }
        },
        XmlEvent::End(n) => {
            if skip > 0 {
                skip - 1
            } else {
                out.push(XmlEvent::End(rename(prefix, n.as_slice())));
                assert(out.deep_view() =~= o1.push(EventModel::End(renamed(prefix@, n@))));
                0
            }
        },
        XmlEvent::Empty(t) => {
            let (_, l) = split_name(t.name.as_slice());
            if is_lit(l, "AdresKontrahenta") || is_lit(l, "AdresDostawcy") || skip > 0 {
                skip
            } else {
                out.push(XmlEvent::Empty(rewrite_tag(prefix, t)));
                assert(out.deep_view() =~= o1.push(EventModel::Empty(rewritten_tag(prefix@, t@))));
                0
            }
        },
        other => {
            if skip == 0 {
                out.push(other.copy());
                assert(out.deep_view() =~= o1.push(ev@));
            }
            skip
        },
    }
}

/// Rewrites a buffered row (its own start and end tags included) and reports its amounts.
pub fn process_row_buffer(buf: &[XmlEvent], prefix: &[u8], sales: bool) -> (r: (Vec<XmlEvent>, RowReport))
    ensures
        r.0.deep_view() == row_output(buf.deep_view(), prefix@, sales),
        r.1.sales == sales,
        r.1.counted == !is_fp(buf.deep_view(), sales),
        r.1.amounts.deep_view() == row_amounts(buf.deep_view(), sales),
{
    reveal(row_amounts);
    reveal(row_output);
    let ins = find_insert_index(buf, sales);
    let dt = find_doc_type(buf, sales);
    let fp = is_lit(dt.as_slice(), "FP");
    let amounts = collect_amounts(buf, sales, fp);
    let di = is_lit(dt.as_slice(), "WEW") || is_lit(dt.as_slice(), "RO");
    let choice = if di { lit("DI") } else { lit("BFK") };
    let ghost bv = buf.deep_view();
    proof {
        lemma_insert_index_bound(bv, sales);
    }
    let own = find_own_choice(buf);
    let mut out: Vec<XmlEvent> = Vec::new();
    if buf.len() == 0 {
        push_choice(&mut out, prefix, choice.as_slice());
        return (out, RowReport { sales, counted: !fp, amounts });
    }
    let last = buf.len() - 1;
    let mut skip: usize = 0;
    let mut inserted = false;
    let mut i: usize = 0;
    while i < last
        invariant
            i <= last,
            last + 1 == buf@.len(),
            bv == buf.deep_view(),
            ins == insert_index(bv, sales),
            choice@ == choice_local(bv, sales),
            own == has_own_choice(bv),
            skip <= i,
            ({
                let w = row_walk(bv, i as int, prefix@, sales);
                &&& out.deep_view() == w.out
                &&& skip == w.skip
                &&& inserted == w.inserted
            }),
        decreases last - i,
    {
        let ghost w0 = row_walk(bv, i as int, prefix@, sales);
        if i == ins && ins > 0 && i + 1 < buf.len() && !own {
            push_choice(&mut out, prefix, choice.as_slice());
            inserted = true;
        }
        let ghost w1 = WalkModel { out: out.deep_view(), skip: skip as nat, inserted };
        skip = push_row_event(&mut out, skip, &buf[i], prefix);
        proof {
            let w2 = row_event(w1, bv[i as int], prefix@);
            let w3 = row_event(WalkModel { inserted: false, ..w1 }, bv[i as int], prefix@);
            assert(w2.out == w3.out && w2.skip == w3.skip && w2.inserted == inserted);
        }
        i = i + 1;
    }
    if !own && !inserted {
        push_choice(&mut out, prefix, choice.as_slice());
    }
    skip = push_row_event(&mut out, skip, &buf[last], prefix);
    (out, RowReport { sales, counted: !fp, amounts })
}

} // verus!
