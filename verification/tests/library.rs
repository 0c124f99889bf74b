//! The library's building blocks, called directly.
use jpk23::control::{control_block, process_ctrl_buffer, ControlRequest, CtrlKind};
use jpk23::converter::{ConvertError, Output, ParserState};
use jpk23::event::{rewrite_attr, rewrite_tag, Attribute, Tag, XmlEvent};
use jpk23::form::{FormVariant, FormVersion};
use jpk23::group::group_children;
use jpk23::header::contains;
use jpk23::names::{build_tag, split_name};
use jpk23::row::{classify_amount, process_row_buffer, AmountRole, Bucket, ControlField, RowPart};
use jpk23::text::{strip_zeros, text_value_of, usize_to_decimal};

fn start(name: &str) -> XmlEvent {
    XmlEvent::Start(Tag { name: name.as_bytes().to_vec(), attributes: Vec::new() })
}

fn start_with(name: &str, key: &str, value: &str) -> XmlEvent {
    XmlEvent::Start(Tag {
        name: name.as_bytes().to_vec(),
        attributes: vec![Attribute { key: key.as_bytes().to_vec(), value: value.as_bytes().to_vec() }],
    })
}

fn end(name: &str) -> XmlEvent {
    XmlEvent::End(name.as_bytes().to_vec())
}

fn text(t: &str) -> XmlEvent {
    XmlEvent::Text(t.as_bytes().to_vec())
}

fn element(name: &str, t: &str) -> Vec<XmlEvent> {
    vec![start(name), text(t), end(name)]
}

/// Renders events the way an XML writer would, for comparisons.
fn render(evs: &[XmlEvent]) -> String {
    let mut s = String::new();
    for e in evs {
        match e {
            XmlEvent::Start(t) | XmlEvent::Empty(t) => {
                s.push('<');
                s.push_str(&String::from_utf8_lossy(&t.name));
                for a in &t.attributes {
                    s.push_str(&format!(" {}=\"{}\"", String::from_utf8_lossy(&a.key), String::from_utf8_lossy(&a.value)));
                }
                s.push_str(if matches!(e, XmlEvent::Empty(_)) { "/>" } else { ">" });
            }
            XmlEvent::End(n) => s.push_str(&format!("</{}>", String::from_utf8_lossy(n))),
            XmlEvent::Text(x) => s.push_str(&String::from_utf8_lossy(x)),
            XmlEvent::Comment(x) => s.push_str(&format!("<!--{}-->", String::from_utf8_lossy(x))),
            XmlEvent::CData(x) => s.push_str(&format!("<![CDATA[{}]]>", String::from_utf8_lossy(x))),
            XmlEvent::Decl(x) | XmlEvent::PI(x) => s.push_str(&format!("<?{}?>", String::from_utf8_lossy(x))),
            XmlEvent::DocType(x) => s.push_str(&format!("<!DOCTYPE {}>", String::from_utf8_lossy(x))),
        }
    }
    s
}

fn written(outputs: &[Output]) -> String {
    let evs: Vec<XmlEvent> = outputs
        .iter()
        .filter_map(|o| match o {
            Output::Event(e) => Some(e.copy()),
            _ => None,
        })
        .collect();
    render(&evs)
}

#[test]
fn split_name_splits_at_first_colon() {
    assert_eq!(split_name(b"ext:JPK"), (&b"ext"[..], &b"JPK"[..]));
    assert_eq!(split_name(b"JPK"), (&b""[..], &b"JPK"[..]));
    assert_eq!(split_name(b"a:b:c"), (&b"a"[..], &b"b:c"[..]));
    assert_eq!(split_name(b":x"), (&b""[..], &b"x"[..]));
}

#[test]
fn build_tag_joins_prefix_and_local_name() {
    assert_eq!(build_tag(b"", b"Naglowek"), b"Naglowek".to_vec());
    assert_eq!(build_tag(b"tns", b"Naglowek"), b"tns:Naglowek".to_vec());
}

#[test]
fn build_tag_decodes_the_prefix_lossily() {
    assert_eq!(build_tag(&[0xff], b"X"), "\u{FFFD}:X".as_bytes().to_vec());
}

#[test]
fn attribute_values_are_escaped_when_written() {
    let a = Attribute { key: b"k".to_vec(), value: b"a<b>&'\"".to_vec() };
    let r = rewrite_attr(&a);
    assert_eq!(r.key, b"k".to_vec());
    assert_eq!(r.value, b"a&lt;b&gt;&amp;&apos;&quot;".to_vec());
    let bad = Attribute { key: b"k".to_vec(), value: vec![0xff] };
    assert_eq!(rewrite_attr(&bad).value, Vec::<u8>::new());
}

#[test]
fn text_values_are_decoded_and_trimmed() {
    assert_eq!(text_value_of(b"  12 \n"), b"12".to_vec());
    assert_eq!(text_value_of("\u{3000}a b\u{a0}".as_bytes()), b"a b".to_vec());
    assert_eq!(text_value_of(&[b' ', 0xff, b' ']), "\u{FFFD}".as_bytes().to_vec());
}

#[test]
fn decimals_and_zero_stripping() {
    assert_eq!(usize_to_decimal(0), b"0".to_vec());
    assert_eq!(usize_to_decimal(1234), b"1234".to_vec());
    assert_eq!(strip_zeros(b"007"), b"7".to_vec());
    assert_eq!(strip_zeros(b"000"), Vec::<u8>::new());
    assert_eq!(strip_zeros(b"10"), b"10".to_vec());
}

#[test]
fn contains_finds_substrings() {
    assert!(contains(b"JPK_V7K (2)", b"V7K"));
    assert!(!contains(b"JPK_V7M (2)", b"V7K"));
    assert!(contains(b"abc", b""));
}

#[test]
fn amount_codes_are_classified() {
    assert_eq!(
        classify_amount(b"K_19", true, false),
        AmountRole { row: RowPart::Base, bucket: Bucket::Base23, control: ControlField::Neither }
    );
    assert_eq!(
        classify_amount(b"K_19", false, false),
        AmountRole { row: RowPart::Base, bucket: Bucket::Neither, control: ControlField::Neither }
    );
    assert_eq!(
        classify_amount(b"K_20", true, true),
        AmountRole { row: RowPart::Neither, bucket: Bucket::Neither, control: ControlField::Neither }
    );
    assert_eq!(
        classify_amount(b"K_36", true, false),
        AmountRole { row: RowPart::Vat, bucket: Bucket::VatOther, control: ControlField::K36 }
    );
    assert_eq!(
        classify_amount(b"K_43", false, true),
        AmountRole { row: RowPart::Vat, bucket: Bucket::Neither, control: ControlField::K43 }
    );
    assert_eq!(
        classify_amount(b"K_42", false, false),
        AmountRole { row: RowPart::Base, bucket: Bucket::Neither, control: ControlField::Neither }
    );
    assert_eq!(
        classify_amount(b"K_99", true, false),
        AmountRole { row: RowPart::Neither, bucket: Bucket::Neither, control: ControlField::Neither }
    );
}

#[test]
fn children_are_grouped_by_direct_element() {
    let mut buf = vec![start("Naglowek")];
    buf.extend(element("tns:KodFormularza", "JPK_VAT"));
    buf.push(XmlEvent::Empty(Tag { name: b"Pusty".to_vec(), attributes: Vec::new() }));
    buf.push(start("Outer"));
    buf.extend(element("Inner", "x"));
    buf.push(end("Outer"));
    buf.push(end("Naglowek"));
    let children = group_children(&buf);
    let names: Vec<Vec<u8>> = children.iter().map(|c| c.name.clone()).collect();
    assert_eq!(names, vec![b"KodFormularza".to_vec(), b"Pusty".to_vec(), b"Outer".to_vec()]);
    assert_eq!(render(&children[0].events), "<tns:KodFormularza>JPK_VAT</tns:KodFormularza>");
    assert_eq!(render(&children[2].events), "<Outer><Inner>x</Inner></Outer>");
}

#[test]
fn row_report_lists_amounts() {
    let mut buf = vec![start("SprzedazWiersz")];
    buf.extend(element("DataWystawienia", "2024-01-01"));
    buf.extend(element("TypDokumentu", " VAT "));
    buf.extend(element("K_19", " 100.00 "));
    buf.extend(element("K_20", "23.00"));
    buf.push(end("SprzedazWiersz"));
    let (out, report) = process_row_buffer(&buf, b"", true);
    assert!(report.sales);
    assert!(report.counted);
    assert_eq!(report.amounts.len(), 2);
    assert_eq!(report.amounts[0].code, b"K_19".to_vec());
    assert_eq!(report.amounts[0].text, b"100.00".to_vec());
    assert_eq!(report.amounts[1].role.control, ControlField::K20);
    assert_eq!(
        render(&out),
        "<SprzedazWiersz><DataWystawienia>2024-01-01</DataWystawienia><BFK>1</BFK><TypDokumentu> VAT </TypDokumentu><K_19> 100.00 </K_19><K_20>23.00</K_20></SprzedazWiersz>"
    );
}

#[test]
fn row_under_a_prefix_gets_prefixed_choice() {
    let mut buf = vec![start("tns:ZakupWiersz")];
    buf.extend(element("tns:DataWplywu", "2024"));
    buf.extend(element("tns:DokumentZakupu", "RO"));
    buf.push(end("tns:ZakupWiersz"));
    let (out, report) = process_row_buffer(&buf, b"jpk", false);
    assert!(!report.sales);
    assert_eq!(
        render(&out),
        "<jpk:ZakupWiersz><jpk:DataWplywu>2024</jpk:DataWplywu><jpk:DI>1</jpk:DI><jpk:DokumentZakupu>RO</jpk:DokumentZakupu></jpk:ZakupWiersz>"
    );
}

#[test]
fn control_section_request_and_block() {
    let mut buf = vec![start("SprzedazCtrl")];
    buf.extend(element("LiczbaWierszySprzedazy", "9"));
    buf.extend(element("PodatekNalezny", " 10.5 "));
    buf.push(end("SprzedazCtrl"));
    let req = process_ctrl_buffer(&buf, b"", 3, 4).unwrap();
    assert_eq!(req.kind, CtrlKind::Sales);
    assert_eq!(req.count, 3);
    assert_eq!(req.old_value, b"10.5".to_vec());
    let same = control_block(&req, b"10.50", b"10.5");
    assert!(same.warning.is_none());
    assert_eq!(
        render(&same.events),
        "<SprzedazCtrl><LiczbaWierszySprzedazy>3</LiczbaWierszySprzedazy><PodatekNalezny>10.50</PodatekNalezny></SprzedazCtrl>"
    );
    let differs = control_block(&req, b"11.00", b"11.0");
    assert_eq!(
        differs.warning,
        Some(b"Warning: Control total discrepancy in SprzedazCtrl/PodatekNalezny is 10.5 (calculated 11.00)".to_vec())
    );
    assert_eq!(
        render(&differs.events),
        "<SprzedazCtrl><LiczbaWierszySprzedazy>3</LiczbaWierszySprzedazy><!-- Warning: Control total discrepancy in SprzedazCtrl/PodatekNalezny is 10.5 (calculated 11.00) --><PodatekNalezny>10.5</PodatekNalezny></SprzedazCtrl>"
    );
}

#[test]
fn control_block_escapes_kept_value() {
    let req = ControlRequest {
        kind: CtrlKind::Purchase,
        tag: b"ZakupCtrl".to_vec(),
        prefix: Vec::new(),
        count: 0,
        old_value: b"<1>".to_vec(),
    };
    let b = control_block(&req, b"0.00", b"0.0");
    assert!(b.warning.is_some());
    assert!(render(&b.events).contains("<PodatekNaliczony>&lt;1&gt;</PodatekNaliczony>"));
    assert!(render(&b.events).contains("is &lt;1&gt; (calculated 0.00)"));
}

#[test]
fn control_section_without_total_uses_calculated_one() {
    let buf = vec![start("ZakupCtrl"), end("ZakupCtrl")];
    let req = process_ctrl_buffer(&buf, b"p", 3, 4).unwrap();
    assert_eq!(req.kind, CtrlKind::Purchase);
    assert_eq!(req.count, 4);
    assert!(req.old_value.is_empty());
    let b = control_block(&req, b"7.00", b"7.0");
    assert!(b.warning.is_none());
    assert_eq!(
        render(&b.events),
        "<p:ZakupCtrl><p:LiczbaWierszyZakupow>4</p:LiczbaWierszyZakupow><p:PodatekNaliczony>7.00</p:PodatekNaliczony></p:ZakupCtrl>"
    );
}

fn feed(state: &mut ParserState, evs: Vec<XmlEvent>) -> (Vec<Output>, Option<ConvertError>) {
    let mut all = Vec::new();
    for ev in evs {
        assert!(!state.would_panic(&ev));
        let step = state.handle_event(ev);
        all.extend(step.outputs);
        if step.error.is_some() {
            return (all, step.error);
        }
    }
    (all, None)
}

fn root(ns: &str) -> XmlEvent {
    start_with("JPK", "xmlns", ns)
}

#[test]
fn state_starts_unknown_and_root_sets_version() {
    let mut s = ParserState::new(None, None, FormVariant::Unknown);
    assert_eq!(s.version(), FormVersion::Unknown);
    assert_eq!(s.finish(), Err(ConvertError::NoRoot));
    let (out, err) = feed(&mut s, vec![root("http://crd.gov.pl/wzor/2021/12/27/11149/")]);
    assert!(err.is_none());
    assert_eq!(s.version(), FormVersion::V2);
    assert_eq!(s.variant(), FormVariant::K);
    assert_eq!(s.finish(), Ok(()));
    assert_eq!(
        written(&out),
        "<JPK xmlns=\"http://crd.gov.pl/wzor/2025/12/19/14089/\" xmlns:xsi=\"http://www.w3.org/2001/XMLSchema-instance\" xsi:schemaLocation=\"http://crd.gov.pl/wzor/2025/12/19/14089/ JPK_V7K3.xsd\">"
    );
}

#[test]
fn v3_input_is_recognised() {
    let mut s = ParserState::new(None, None, FormVariant::Unknown);
    let (_, err) = feed(&mut s, vec![root("http://crd.gov.pl/wzor/2025/12/19/14090/")]);
    assert!(err.is_none());
    assert_eq!(s.version(), FormVersion::V3);
    assert_eq!(s.variant(), FormVariant::M);
}

#[test]
fn unknown_namespace_is_an_error() {
    let mut s = ParserState::new(None, None, FormVariant::M);
    let (out, err) = feed(&mut s, vec![root("urn:other")]);
    assert_eq!(err, Some(ConvertError::UnrecognizedNamespace));
    assert!(out.is_empty());
    assert_eq!(
        ConvertError::UnrecognizedNamespace.message(),
        "Error: Input file must be of JPK_V7 (1 or 2) type root namespace."
    );
}

#[test]
fn caller_variant_beats_header_form_code() {
    let mut s = ParserState::new(None, None, FormVariant::M);
    let mut evs = vec![root("http://crd.gov.pl/wzor/2021/12/27/11149/"), start("Naglowek")];
    evs.push(start_with("KodFormularza", "kodSystemowy", "JPK_V7K (2)"));
    evs.push(text("JPK_V7K"));
    evs.push(end("KodFormularza"));
    evs.push(end("Naglowek"));
    let (out, err) = feed(&mut s, evs);
    assert!(err.is_none());
    assert_eq!(s.variant(), FormVariant::M);
    assert!(written(&out).contains(
        "<Naglowek><KodFormularza kodSystemowy=\"JPK_V7M (3)\" wersjaSchemy=\"1-0E\">JPK_VAT</KodFormularza><WariantFormularza>3</WariantFormularza></Naglowek>"
    ));
}

#[test]
fn header_form_code_decides_variant() {
    let mut s = ParserState::new(None, None, FormVariant::Unknown);
    let mut evs = vec![root("http://crd.gov.pl/wzor/2021/12/27/11148/"), start("Naglowek")];
    evs.push(start_with("KodFormularza", "kodSystemowy", "JPK_V7K (2)"));
    evs.push(text("JPK_V7K"));
    evs.push(end("KodFormularza"));
    evs.push(end("Naglowek"));
    let (_, err) = feed(&mut s, evs);
    assert!(err.is_none());
    assert_eq!(s.variant(), FormVariant::K);
}

fn header_with_dates(od: &str, dd: &str) -> Vec<XmlEvent> {
    let mut evs = vec![root("http://crd.gov.pl/wzor/2021/12/27/11148/"), start("Naglowek")];
    evs.extend(element("DataOd", od));
    evs.extend(element("DataDo", dd));
    evs.push(end("Naglowek"));
    evs
}

#[test]
fn header_year_and_month_from_start_date() {
    let mut s = ParserState::new(None, Some(b"0202".to_vec()), FormVariant::Unknown);
    let (out, err) = feed(&mut s, header_with_dates("2024-07-01", "2024-07-31"));
    assert!(err.is_none());
    assert!(written(&out).contains("<KodUrzedu>0202</KodUrzedu><Rok>2024</Rok><Miesiac>7</Miesiac></Naglowek>"));
}

#[test]
fn header_year_must_parse_as_positive_number() {
    let mut s = ParserState::new(None, None, FormVariant::Unknown);
    let (out, _) = feed(&mut s, header_with_dates("abcd-00-01", "abcd-00-31"));
    let w = written(&out);
    assert!(!w.contains("<Rok>"));
    assert!(!w.contains("<Miesiac>"));
    let mut s = ParserState::new(None, None, FormVariant::Unknown);
    let (out, _) = feed(&mut s, header_with_dates("+024-10-01", "+024-12-31"));
    assert!(written(&out).contains("<Rok>+024</Rok><Miesiac>10</Miesiac>"));
    assert_eq!(s.variant(), FormVariant::K);
}

#[test]
fn short_start_date_is_a_panic_of_the_header() {
    let mut s = ParserState::new(None, None, FormVariant::Unknown);
    let mut evs = header_with_dates("20", "2024-01-31");
    let last = evs.pop().unwrap();
    let _ = feed(&mut s, evs);
    assert!(s.would_panic(&last));
}

#[test]
fn counts_follow_counted_rows() {
    let mut s = ParserState::new(None, None, FormVariant::Unknown);
    let mut evs = vec![root("http://crd.gov.pl/wzor/2021/12/27/11148/")];
    for doc in ["VAT", "FP", "RO"] {
        evs.push(start("SprzedazWiersz"));
        evs.extend(element("TypDokumentu", doc));
        evs.push(end("SprzedazWiersz"));
    }
    evs.push(start("ZakupWiersz"));
    evs.push(end("ZakupWiersz"));
    let (out, err) = feed(&mut s, evs);
    assert!(err.is_none());
    assert_eq!(s.count_sales(), 2);
    assert_eq!(s.count_purchase(), 1);
    let reported = out.iter().filter(|o| matches!(o, Output::Row(r) if r.counted)).count();
    assert_eq!(reported, 3);
}

#[test]
fn splitting_a_built_name_gives_its_parts() {
    let built = build_tag(b"tns", b"Naglowek");
    assert_eq!(split_name(&built), (&b"tns"[..], &b"Naglowek"[..]));
    let bare = build_tag(b"", b"Naglowek");
    assert_eq!(split_name(&bare), (&b""[..], &b"Naglowek"[..]));
}

#[test]
fn row_without_date_gets_choice_inside() {
    let mut buf = vec![start("ZakupWiersz")];
    buf.extend(element("K_43", "100.00"));
    buf.push(end("ZakupWiersz"));
    let (out, _) = process_row_buffer(&buf, b"", false);
    assert_eq!(render(&out), "<ZakupWiersz><K_43>100.00</K_43><BFK>1</BFK></ZakupWiersz>");
}

#[test]
fn row_with_own_choice_after_date_gets_none() {
    let mut buf = vec![start("SprzedazWiersz")];
    buf.extend(element("DataWystawienia", "2026"));
    buf.extend(element("BFK", "1"));
    buf.push(end("SprzedazWiersz"));
    let (out, _) = process_row_buffer(&buf, b"", true);
    assert_eq!(render(&out), "<SprzedazWiersz><DataWystawienia>2026</DataWystawienia><BFK>1</BFK></SprzedazWiersz>");
}

#[test]
fn choice_inside_address_block_does_not_count() {
    let mut buf = vec![start("SprzedazWiersz"), start("AdresKontrahenta")];
    buf.extend(element("DI", "1"));
    buf.push(end("AdresKontrahenta"));
    buf.extend(element("DataWystawienia", "2026"));
    buf.push(end("SprzedazWiersz"));
    let (out, _) = process_row_buffer(&buf, b"", true);
    assert_eq!(render(&out), "<SprzedazWiersz><DataWystawienia>2026</DataWystawienia><BFK>1</BFK></SprzedazWiersz>");
}

#[test]
fn repeated_attribute_keys_keep_the_first() {
    let t = Tag {
        name: b"a:KodFormularza".to_vec(),
        attributes: vec![
            Attribute { key: b"x".to_vec(), value: b"1".to_vec() },
            Attribute { key: b"y".to_vec(), value: b"2".to_vec() },
            Attribute { key: b"x".to_vec(), value: b"3".to_vec() },
        ],
    };
    assert_eq!(render(&[XmlEvent::Start(rewrite_tag(b"p", &t))]), "<p:KodFormularza x=\"1\" y=\"2\">");
    let mut s = ParserState::new(None, None, FormVariant::Unknown);
    let evs = vec![
        root("http://crd.gov.pl/wzor/2021/12/27/11148/"),
        start("Naglowek"),
        XmlEvent::Start(Tag {
            name: b"KodFormularza".to_vec(),
            attributes: vec![
                Attribute { key: b"kodSystemowy".to_vec(), value: b"JPK_V7K (2)".to_vec() },
                Attribute { key: b"kodSystemowy".to_vec(), value: b"JPK_V7M (2)".to_vec() },
            ],
        }),
        text("JPK_V7K"),
        end("KodFormularza"),
        end("Naglowek"),
    ];
    let (out, _) = feed(&mut s, evs);
    assert_eq!(s.variant(), FormVariant::K);
    assert!(written(&out).contains("<KodFormularza kodSystemowy=\"JPK_V7K (3)\" wersjaSchemy=\"1-0E\">JPK_VAT</KodFormularza>"));
}

#[test]
fn repeated_root_namespace_uses_the_first() {
    let mut s = ParserState::new(None, None, FormVariant::Unknown);
    let t = Tag {
        name: b"JPK".to_vec(),
        attributes: vec![
            Attribute { key: b"xmlns".to_vec(), value: b"http://crd.gov.pl/wzor/2021/12/27/11149/".to_vec() },
            Attribute { key: b"xmlns".to_vec(), value: b"http://crd.gov.pl/wzor/2021/12/27/11148/".to_vec() },
        ],
    };
    let (out, err) = feed(&mut s, vec![XmlEvent::Start(t)]);
    assert!(err.is_none());
    assert_eq!(s.variant(), FormVariant::K);
    assert_eq!(written(&out).matches("xmlns=").count(), 1);
}

#[test]
fn try_handle_event_refuses_what_cannot_be_handled() {
    let mut s = ParserState::new(None, None, FormVariant::Unknown);
    let mut evs = header_with_dates("20", "2024-01-31");
    let last = evs.pop().unwrap();
    let _ = feed(&mut s, evs);
    assert!(s.try_handle_event(last).is_none());
    assert_eq!(s.version(), FormVersion::V2);
    let mut s = ParserState::new(None, None, FormVariant::Unknown);
    let step = s.try_handle_event(root("http://crd.gov.pl/wzor/2021/12/27/11148/")).unwrap();
    assert!(step.error.is_none());
    assert_eq!(step.outputs.len(), 1);
}
