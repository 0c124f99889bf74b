//! Whole-document conversions: the input is read with quick-xml, handed to the
//! converter event by event, and the outputs are written back with quick-xml.
use jpk23::control::{control_block, CtrlKind};
use jpk23::converter::{Output, ParserState};
use jpk23::event::{Attribute, Tag, XmlEvent};
use jpk23::form::{FormVariant, FormVersion};
use jpk23::row::ControlField;
use quick_xml::events::attributes::Attribute as XmlAttribute;
use quick_xml::events::{BytesCData, BytesDecl, BytesEnd, BytesPI, BytesStart, BytesText, Event};
use quick_xml::name::QName;
use quick_xml::{Reader, Writer};
use std::borrow::Cow;
use std::io::Cursor;

struct Converted {
    xml: String,
    version: FormVersion,
    variant: FormVariant,
    nip: Option<String>,
    sales: usize,
    purchases: usize,
    warnings: Vec<String>,
}

fn library_event(ev: &Event) -> Option<XmlEvent> {
    let tag = |e: &BytesStart| Tag {
        name: e.name().as_ref().to_vec(),
        attributes: e
            .attributes()
            .flatten()
            .map(|a| Attribute { key: a.key.as_ref().to_vec(), value: a.value.to_vec() })
            .collect(),
    };
    Some(match ev {
        Event::Start(e) => XmlEvent::Start(tag(e)),
        Event::Empty(e) => XmlEvent::Empty(tag(e)),
        Event::End(e) => XmlEvent::End(e.name().as_ref().to_vec()),
        Event::Text(t) => XmlEvent::Text(t.to_vec()),
        Event::CData(t) => XmlEvent::CData(t.to_vec()),
        Event::Comment(t) => XmlEvent::Comment(t.to_vec()),
        Event::Decl(t) => XmlEvent::Decl(t.to_vec()),
        Event::PI(t) => XmlEvent::PI(t.to_vec()),
        Event::DocType(t) => XmlEvent::DocType(t.to_vec()),
        Event::Eof => return None,
    })
}

fn start_of(t: &Tag) -> BytesStart<'_> {
    let mut s = BytesStart::from(QName(&t.name));
    for a in &t.attributes {
        s.push_attribute(XmlAttribute { key: QName(&a.key), value: Cow::Borrowed(&a.value) });
    }
    s
}

fn write_event(w: &mut Writer<&mut Vec<u8>>, ev: &XmlEvent) {
    let text = |x: &Vec<u8>| String::from_utf8(x.clone()).unwrap();
    match ev {
        XmlEvent::Start(t) => w.write_event(Event::Start(start_of(t))),
        XmlEvent::Empty(t) => w.write_event(Event::Empty(start_of(t))),
        XmlEvent::End(n) => w.write_event(Event::End(BytesEnd::from(QName(n)))),
        XmlEvent::Decl(x) => w.write_event(Event::Decl(BytesDecl::from_start(BytesStart::from(QName(x))))),
        XmlEvent::Text(x) => w.write_event(Event::Text(BytesText::from_escaped(text(x)))),
        XmlEvent::CData(x) => w.write_event(Event::CData(BytesCData::new(text(x)))),
        XmlEvent::Comment(x) => w.write_event(Event::Comment(BytesText::from_escaped(text(x)))),
        XmlEvent::PI(x) => w.write_event(Event::PI(BytesPI::new(text(x)))),
        XmlEvent::DocType(x) => w.write_event(Event::DocType(BytesText::from_escaped(text(x)))),
    }
    .unwrap();
}

fn field_index(f: ControlField) -> usize {
    let all = [
        ControlField::K16, ControlField::K18, ControlField::K20, ControlField::K24,
        ControlField::K26, ControlField::K28, ControlField::K30, ControlField::K32,
        ControlField::K33, ControlField::K34, ControlField::K35, ControlField::K36,
        ControlField::K360, ControlField::K41, ControlField::K43, ControlField::K44,
        ControlField::K45, ControlField::K46, ControlField::K47,
    ];
    all.iter().position(|g| *g == f).map_or(all.len(), |i| i)
}

fn convert(
    input: &[u8],
    target: Option<&str>,
    kod: Option<&str>,
    explicit: FormVariant,
    pretty: bool,
) -> Result<Converted, String> {
    let mut out: Vec<u8> = Vec::new();
    let mut warnings = Vec::new();
    let mut state = ParserState::new(
        target.map(|s| s.as_bytes().to_vec()),
        kod.map(|s| s.as_bytes().to_vec()),
        explicit,
    );
    {
        let mut w = if pretty { Writer::new_with_indent(&mut out, b' ', 2) } else { Writer::new(&mut out) };
        let mut reader = Reader::from_reader(Cursor::new(input));
        let mut buf = Vec::new();
        let mut sums = [0.0f64; 20];
        loop {
            let event = reader.read_event_into(&mut buf).map_err(|e| e.to_string())?;
            let ev = match library_event(&event) {
                Some(ev) => ev,
                None => break,
            };
            assert!(!state.would_panic(&ev));
            let step = state.handle_event(ev);
            for o in &step.outputs {
                match o {
                    Output::Event(e) => write_event(&mut w, e),
                    Output::Row(report) => {
                        for a in &report.amounts {
                            if let Ok(v) = std::str::from_utf8(&a.text).unwrap().parse::<f64>() {
                                sums[field_index(a.role.control)] += v;
                            }
                        }
                    }
                    Output::Control(req) => {
                        let total = match req.kind {
                            CtrlKind::Sales => sums[0] + sums[1] + sums[2] + sums[3] + sums[4] + sums[5]
                                + sums[6] + sums[7] + sums[8] + sums[9] - sums[10] - sums[11] - sums[12],
                            CtrlKind::Purchase => sums[13] + sums[14] + sums[15] + sums[16] + sums[17] + sums[18],
                            CtrlKind::Other => 0.0,
                        };
                        let t2 = format!("{:.2}", total);
                        let t1 = format!("{:.1}", total);
                        let block = control_block(req, t2.as_bytes(), t1.as_bytes());
                        if let Some(m) = &block.warning {
                            warnings.push(String::from_utf8(m.clone()).unwrap());
                        }
                        for e in &block.events {
                            write_event(&mut w, e);
                        }
                    }
                }
            }
            if let Some(err) = step.error {
                return Err(err.message().to_string());
            }
            buf.clear();
        }
    }
    if let Err(err) = state.finish() {
        return Err(err.message().to_string());
    }
    Ok(Converted {
        xml: String::from_utf8(out).unwrap(),
        version: state.version(),
        variant: state.variant(),
        nip: state.taxpayer_nip().map(|v| String::from_utf8(v).unwrap()),
        sales: state.count_sales(),
        purchases: state.count_purchase(),
        warnings,
    })
}

fn plain(input: &[u8]) -> Converted {
    convert(input, None, None, FormVariant::Unknown, false).unwrap()
}

#[test]
fn test_valid_root_namespace_conversion() {
    let input = br#"<?xml version="1.0" encoding="UTF-8"?><JPK xmlns="http://crd.gov.pl/wzor/2021/12/27/11148/" xmlns:etd="http://crd.gov.pl/xml/schematy/dziedzinowe/mf/2021/06/08/eD/DefinicjeTypy/"></JPK>"#;
    let result = plain(input).xml;
    assert!(result.contains(r#"xmlns="http://crd.gov.pl/wzor/2025/12/19/14090/""#));
    assert!(result.contains(r#"xmlns:etd="http://crd.gov.pl/xml/schematy/dziedzinowe/mf/2022/09/13/eD/DefinicjeTypy/""#));
}

#[test]
fn test_invalid_root_namespace_fails() {
    let input = br#"<?xml version="1.0" encoding="UTF-8"?><JPK xmlns="http://crd.gov.pl/wzor/WRONG/"></JPK>"#;
    let result = convert(input, None, None, FormVariant::Unknown, false);
    assert!(result.is_err());
    assert_eq!(result.err().unwrap(), "Error: Input file must be of JPK_V7 (1 or 2) type root namespace.");
}

#[test]
fn test_sales_row_di_injection_wew() {
    let input = br#"<?xml version="1.0"?><JPK xmlns="http://crd.gov.pl/wzor/2021/12/27/11148/"><SprzedazWiersz><DataWystawienia>2026</DataWystawienia><TypDokumentu>WEW</TypDokumentu></SprzedazWiersz></JPK>"#;
    let result = plain(input).xml;
    assert!(result.contains("<DataWystawienia>2026</DataWystawienia><DI>1</DI><TypDokumentu>WEW</TypDokumentu>"));
}

#[test]
fn test_sales_row_bfk_injection_normal_invoice() {
    let input = br#"<?xml version="1.0"?><JPK xmlns="http://crd.gov.pl/wzor/2021/12/27/11148/"><SprzedazWiersz><DataSprzedazy>2026</DataSprzedazy><TypDokumentu>VAT</TypDokumentu></SprzedazWiersz></JPK>"#;
    let result = plain(input).xml;
    assert!(result.contains("<DataSprzedazy>2026</DataSprzedazy><BFK>1</BFK><TypDokumentu>VAT</TypDokumentu>"));
}

#[test]
fn test_purchase_row_di_injection() {
    let input = br#"<?xml version="1.0"?><JPK xmlns="http://crd.gov.pl/wzor/2021/12/27/11148/"><ZakupWiersz><DataZakupu>2026</DataZakupu><DokumentZakupu>WEW</DokumentZakupu></ZakupWiersz></JPK>"#;
    let result = plain(input).xml;
    assert!(result.contains("<DataZakupu>2026</DataZakupu><DI>1</DI><DokumentZakupu>WEW</DokumentZakupu>"));
}

#[test]
fn test_namespace_override() {
    let input = br#"<?xml version="1.0" encoding="UTF-8"?><JPK xmlns="http://crd.gov.pl/wzor/2021/12/27/11148/"><Naglowek><KodFormularza kodSystemowy="JPK_V7M (2)">JPK_V7M</KodFormularza></Naglowek></JPK>"#;
    let result = convert(input, Some("foo"), None, FormVariant::Unknown, false).unwrap().xml;
    assert!(result.contains("<foo:JPK"));
    assert!(result.contains(r#"xmlns:foo="http://crd.gov.pl/wzor/2025/12/19/14090/""#));
    assert!(result.contains("<foo:Naglowek>"));
    assert!(result.contains(r#"<foo:KodFormularza kodSystemowy="JPK_V7M (3)""#));
}

#[test]
fn test_namespace_strip() {
    let input = br#"<?xml version="1.0" encoding="UTF-8"?><ext:JPK xmlns:ext="http://crd.gov.pl/wzor/2021/12/27/11148/"><ext:Naglowek><ext:KodFormularza kodSystemowy="JPK_V7M (2)">JPK_V7M</ext:KodFormularza></ext:Naglowek></ext:JPK>"#;
    let result = convert(input, Some(""), None, FormVariant::Unknown, false).unwrap().xml;
    assert!(result.contains("<JPK xmlns="));
    assert!(result.contains(r#"xmlns="http://crd.gov.pl/wzor/2025/12/19/14090/""#));
    assert!(result.contains("<Naglowek>"));
    assert!(result.contains(r#"<KodFormularza kodSystemowy="JPK_V7M (3)""#));
    assert!(!result.contains("ext:"));
}

#[test]
fn test_control_total_discrepancy() {
    let input = br#"<?xml version="1.0"?>
    <JPK xmlns="http://crd.gov.pl/wzor/2021/12/27/11148/">
        <ZakupWiersz><K_43>100.00</K_43><K_44>23.00</K_44></ZakupWiersz>
        <ZakupWiersz><K_43>200.00</K_43><K_44>46.00</K_44></ZakupWiersz>
        <ZakupCtrl>
            <LiczbaWierszyZakupow>1</LiczbaWierszyZakupow>
            <PodatekNaliczony>50.00</PodatekNaliczony>
        </ZakupCtrl>
    </JPK>"#;
    let c = plain(input);
    let result = c.xml;
    assert!(result.contains("<LiczbaWierszyZakupow>2</LiczbaWierszyZakupow>"));
    assert!(result.contains("<PodatekNaliczony>50.00</PodatekNaliczony>"));
    assert!(result.contains("<!-- Warning: Control total discrepancy in ZakupCtrl/PodatekNaliczony is 50.00 (calculated 369.00) -->"));
    assert_eq!(c.warnings, vec!["Warning: Control total discrepancy in ZakupCtrl/PodatekNaliczony is 50.00 (calculated 369.00)".to_string()]);
}

#[test]
fn test_variant_override_k() {
    let input = br#"<?xml version="1.0" encoding="UTF-8"?><JPK xmlns="http://crd.gov.pl/wzor/2021/12/27/11148/"><Naglowek><KodFormularza>JPK_V7M</KodFormularza></Naglowek></JPK>"#;
    let result = convert(input, None, None, FormVariant::K, false).unwrap().xml;
    assert!(result.contains(r#"xmlns="http://crd.gov.pl/wzor/2025/12/19/14089/""#));
    assert!(result.contains(r#"xsi:schemaLocation="http://crd.gov.pl/wzor/2025/12/19/14089/ JPK_V7K3.xsd""#));
    assert!(result.contains(r#"kodSystemowy="JPK_V7K (3)""#));
    assert!(result.contains(r#"wersjaSchemy="1-0E""#));
    assert!(result.contains("<WariantFormularza>3</WariantFormularza>"));
}

#[test]
fn test_v2_k_detection() {
    let input = br#"<?xml version="1.0" encoding="UTF-8"?><JPK xmlns="http://crd.gov.pl/wzor/2021/12/27/11149/"><Naglowek><KodFormularza>JPK_V7K</KodFormularza></Naglowek></JPK>"#;
    let result = plain(input).xml;
    assert!(result.contains(r#"xmlns="http://crd.gov.pl/wzor/2025/12/19/14089/""#));
    assert!(result.contains(r#"xsi:schemaLocation="http://crd.gov.pl/wzor/2025/12/19/14089/ JPK_V7K3.xsd""#));
    assert!(result.contains(r#"kodSystemowy="JPK_V7K (3)""#));
}

#[test]
fn test_xml_indentation() {
    let input = br#"<JPK xmlns="http://crd.gov.pl/wzor/2021/12/27/11148/"><Naglowek><KodFormularza>JPK_V7M</KodFormularza></Naglowek></JPK>"#;
    let result = convert(input, None, None, FormVariant::M, true).unwrap().xml;
    assert!(result.contains("\n  <Naglowek>"));
    assert!(result.contains("\n    <KodFormularza"));
}

// ---------------------------------------------------------------------------
// Further scenarios

#[test]
fn empty_document_has_no_root() {
    let r = convert(b"<?xml version=\"1.0\"?>", None, None, FormVariant::Unknown, false);
    assert_eq!(r.err().unwrap(), "Error: Unrecognized format or empty file, could not find JPK root node.");
}

#[test]
fn v1_without_office_code_fails() {
    let input = br#"<JPK xmlns="http://jpk.mf.gov.pl/wzor/2017/11/13/1113/"><Naglowek><KodFormularza>JPK_VAT</KodFormularza><DataOd>2024-01-01</DataOd><DataDo>2024-01-31</DataDo></Naglowek></JPK>"#;
    let r = convert(input, None, None, FormVariant::Unknown, false);
    assert_eq!(
        r.err().unwrap(),
        "Error: KodUrzedu is mandatory for conversion to JPK_V7(3). Please provide it using -u or --urzad flag."
    );
}

#[test]
fn v1_header_gets_dates_and_office_code() {
    let input = br#"<JPK xmlns="http://jpk.mf.gov.pl/wzor/2017/11/13/1113/"><Naglowek><KodFormularza>JPK_VAT</KodFormularza><DataOd>2024-03-01</DataOd><DataDo>2024-05-31</DataDo></Naglowek></JPK>"#;
    let c = convert(input, None, Some("1471"), FormVariant::Unknown, false).unwrap();
    assert_eq!(c.version, FormVersion::V1);
    assert_eq!(c.variant, FormVariant::K);
    assert!(c.xml.contains("<KodUrzedu>1471</KodUrzedu><Rok>2024</Rok><Miesiac>3</Miesiac></Naglowek>"));
    assert!(c.xml.contains(r#"<KodFormularza kodSystemowy="JPK_V7K (3)" wersjaSchemy="1-0E">JPK_VAT</KodFormularza><WariantFormularza>3</WariantFormularza>"#));
    assert!(!c.xml.contains("DataOd"));
}

#[test]
fn v1_rows_are_wrapped_in_ewidencja() {
    let input = br#"<JPK xmlns="http://jpk.mf.gov.pl/wzor/2017/11/13/1113/"><SprzedazWiersz><DataWystawienia>2024-01-02</DataWystawienia><TypDokumentu>RO</TypDokumentu></SprzedazWiersz></JPK>"#;
    let c = plain(input);
    assert!(c.xml.contains("<Ewidencja><SprzedazWiersz><DataWystawienia>2024-01-02</DataWystawienia><DI>1</DI><TypDokumentu>RO</TypDokumentu></SprzedazWiersz></Ewidencja></JPK>"));
    assert_eq!(c.sales, 1);
}

#[test]
fn fp_rows_are_not_counted() {
    let input = br#"<JPK xmlns="http://crd.gov.pl/wzor/2021/12/27/11148/"><SprzedazWiersz><DataWystawienia>2024</DataWystawienia><TypDokumentu>FP</TypDokumentu><K_19>100</K_19></SprzedazWiersz><SprzedazWiersz><DataWystawienia>2024</DataWystawienia><K_20>23</K_20></SprzedazWiersz><SprzedazCtrl><LiczbaWierszySprzedazy>2</LiczbaWierszySprzedazy><PodatekNalezny>23.0</PodatekNalezny></SprzedazCtrl></JPK>"#;
    let c = plain(input);
    assert_eq!(c.sales, 1);
    assert!(c.xml.contains("<SprzedazCtrl><LiczbaWierszySprzedazy>1</LiczbaWierszySprzedazy><PodatekNalezny>23.00</PodatekNalezny></SprzedazCtrl>"));
    assert!(c.warnings.is_empty());
}

#[test]
fn address_blocks_are_dropped_from_rows() {
    let input = br#"<JPK xmlns="http://crd.gov.pl/wzor/2021/12/27/11148/"><ZakupWiersz><AdresDostawcy><Ulica>A</Ulica></AdresDostawcy><DataZakupu>2024</DataZakupu><K_43>1</K_43></ZakupWiersz></JPK>"#;
    let c = plain(input);
    assert!(c.xml.contains("<ZakupWiersz><DataZakupu>2024</DataZakupu><BFK>1</BFK><K_43>1</K_43></ZakupWiersz>"));
    assert!(!c.xml.contains("Ulica"));
}

#[test]
fn subject_without_email_gets_placeholder() {
    let input = br#"<JPK xmlns="http://crd.gov.pl/wzor/2021/12/27/11148/"><Podmiot1><OsobaNiefizyczna><NIP> 1234567890 </NIP><PelnaNazwa>Firma</PelnaNazwa></OsobaNiefizyczna></Podmiot1></JPK>"#;
    let c = plain(input);
    assert!(c.xml.contains(r#"<Podmiot1 rola="Podatnik"><OsobaNiefizyczna><NIP> 1234567890 </NIP><PelnaNazwa>Firma</PelnaNazwa><Email>brak@adresu.email</Email></OsobaNiefizyczna></Podmiot1>"#));
    assert_eq!(c.nip, Some("1234567890".to_string()));
}

#[test]
fn v1_flat_subject_writes_full_name_as_pelna_nazwa() {
    let input = br#"<JPK xmlns="http://jpk.mf.gov.pl/wzor/2017/11/13/1113/"><Podmiot1><NIP>111</NIP><NazwaPelna>X</NazwaPelna><Email>a@b.c</Email></Podmiot1></JPK>"#;
    let c = plain(input);
    assert!(c.xml.contains(r#"<Podmiot1 rola="Podatnik"><OsobaNiefizyczna><NIP>111</NIP><PelnaNazwa>X</PelnaNazwa><Email>a@b.c</Email></OsobaNiefizyczna></Podmiot1>"#));
    assert!(!c.xml.contains("NazwaPelna"));
    assert_eq!(c.nip, Some("111".to_string()));
}

#[test]
fn existing_choice_element_is_not_duplicated() {
    let input = br#"<JPK xmlns="http://crd.gov.pl/wzor/2021/12/27/11148/"><SprzedazWiersz><DataWystawienia>2026</DataWystawienia><BFK>1</BFK><K_19>5</K_19></SprzedazWiersz></JPK>"#;
    let c = plain(input);
    assert!(c.xml.contains("<SprzedazWiersz><DataWystawienia>2026</DataWystawienia><BFK>1</BFK><K_19>5</K_19></SprzedazWiersz>"));
    assert_eq!(c.xml.matches("<BFK>").count(), 1);
}

#[test]
fn existing_choice_without_date_is_kept_alone() {
    let input = br#"<JPK xmlns="http://crd.gov.pl/wzor/2021/12/27/11148/"><SprzedazWiersz><NrKSeF>abc</NrKSeF></SprzedazWiersz></JPK>"#;
    let c = plain(input);
    assert!(c.xml.contains("<SprzedazWiersz><NrKSeF>abc</NrKSeF></SprzedazWiersz>"));
}

#[test]
fn row_without_date_gets_choice_before_its_end() {
    let input = br#"<JPK xmlns="http://crd.gov.pl/wzor/2021/12/27/11148/"><ZakupWiersz><K_43>100.00</K_43></ZakupWiersz></JPK>"#;
    let c = plain(input);
    assert!(c.xml.contains("<ZakupWiersz><K_43>100.00</K_43><BFK>1</BFK></ZakupWiersz>"));
    assert_eq!(c.xml.matches("<BFK>").count(), 1);
}

#[test]
fn row_with_date_last_gets_choice_before_its_end() {
    let input = br#"<JPK xmlns="http://crd.gov.pl/wzor/2021/12/27/11148/"><ZakupWiersz><DokumentZakupu>WEW</DokumentZakupu><DataZakupu>2026</DataZakupu></ZakupWiersz></JPK>"#;
    let c = plain(input);
    assert!(c.xml.contains("<ZakupWiersz><DokumentZakupu>WEW</DokumentZakupu><DataZakupu>2026</DataZakupu><DI>1</DI></ZakupWiersz>"));
}

#[test]
fn caller_office_code_wins_over_the_file() {
    let input = br#"<JPK xmlns="http://crd.gov.pl/wzor/2021/12/27/11148/"><Naglowek><KodFormularza>JPK_V7M</KodFormularza><KodUrzedu>9999</KodUrzedu></Naglowek></JPK>"#;
    let c = convert(input, None, Some("1438"), FormVariant::Unknown, false).unwrap();
    assert!(c.xml.contains("<KodUrzedu>1438</KodUrzedu>"));
    assert_eq!(c.xml.matches("<KodUrzedu>").count(), 1);
    assert!(!c.xml.contains("9999"));
}

#[test]
fn file_office_code_is_kept_without_caller_code() {
    let input = br#"<JPK xmlns="http://crd.gov.pl/wzor/2021/12/27/11148/"><Naglowek><KodFormularza>JPK_V7M</KodFormularza><KodUrzedu>9999</KodUrzedu></Naglowek></JPK>"#;
    let c = plain(input);
    assert!(c.xml.contains("<KodUrzedu>9999</KodUrzedu>"));
    let c = convert(input, None, Some(""), FormVariant::Unknown, false).unwrap();
    assert!(c.xml.contains("<KodUrzedu>9999</KodUrzedu>"));
}

#[test]
fn every_element_is_written_under_the_given_prefix() {
    let input = br#"<?xml version="1.0"?><tns:JPK xmlns:tns="http://crd.gov.pl/wzor/2021/12/27/11148/" xmlns:etd="x"><tns:Naglowek><tns:KodFormularza kodSystemowy="JPK_V7M (2)">JPK_V7M</tns:KodFormularza><tns:CelZlozenia poz="P_7">1</tns:CelZlozenia></tns:Naglowek><tns:Podmiot1><tns:OsobaFizyczna><etd:NIP>1</etd:NIP></tns:OsobaFizyczna></tns:Podmiot1><tns:Ewidencja><tns:SprzedazWiersz><tns:DataWystawienia>2024</tns:DataWystawienia><tns:K_19>1</tns:K_19><tns:Pusty/></tns:SprzedazWiersz><tns:SprzedazCtrl><tns:PodatekNalezny>0</tns:PodatekNalezny></tns:SprzedazCtrl></tns:Ewidencja></tns:JPK>"#;
    let c = convert(input, Some("jpk"), None, FormVariant::Unknown, false).unwrap();
    let mut reader = Reader::from_reader(Cursor::new(c.xml.as_bytes()));
    let mut buf = Vec::new();
    let mut elements = 0;
    loop {
        let name = match reader.read_event_into(&mut buf).unwrap() {
            Event::Start(e) | Event::Empty(e) => e.name().as_ref().to_vec(),
            Event::End(e) => e.name().as_ref().to_vec(),
            Event::Eof => break,
            _ => continue,
        };
        elements += 1;
        assert!(name.starts_with(b"jpk:"), "{}", String::from_utf8_lossy(&name));
        buf.clear();
    }
    assert!(elements > 20);
    assert!(c.xml.contains("<jpk:NIP>1</jpk:NIP>"));
    assert!(c.xml.contains("<jpk:Email>brak@adresu.email</jpk:Email>"));
}

#[test]
fn repeated_root_declarations_are_written_once() {
    let input = br#"<tns:JPK xmlns="http://crd.gov.pl/wzor/2021/12/27/11148/" xmlns:tns="http://crd.gov.pl/wzor/2021/12/27/11148/"></tns:JPK>"#;
    let c = plain(input);
    assert_eq!(c.xml.matches("xmlns:tns=").count(), 1);
    assert!(c.xml.starts_with(r#"<tns:JPK xmlns:tns="http://crd.gov.pl/wzor/2025/12/19/14090/" xmlns:xsi="#));
}

#[test]
fn clashing_root_attribute_keeps_the_first() {
    let input = br#"<JPK xmlns:foo="bar" xmlns="http://crd.gov.pl/wzor/2021/12/27/11148/"></JPK>"#;
    let c = convert(input, Some("foo"), None, FormVariant::Unknown, false).unwrap();
    assert!(c.xml.starts_with(r#"<foo:JPK xmlns:foo="bar" xmlns:xsi="http://www.w3.org/2001/XMLSchema-instance""#));
}
