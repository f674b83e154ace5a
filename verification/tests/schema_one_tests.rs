//! The schema-1 codec, scan and rewrite.

use swinstall_stack::SwInstallError;
use swinstall_stack::actions::Action;
use swinstall_stack::parser::SwinstallParser;
use swinstall_stack::pybool::Pybool;
use swinstall_stack::schemas::ReturnElt;
use swinstall_stack::schemas::SchemaWrapper;
use swinstall_stack::schemas::one::Elt;
use swinstall_stack::schemas::one::One;
use swinstall_stack::stamp::StampValue;
use swinstall_stack::xml::ReadStep;
use swinstall_stack::xml::XmlOut;

const STACK: &str = "/dd/facility/etc/bak/packages.xml/packages.xml_swinstall_stack";

fn now_stamp() -> StampValue {
    let utc = chrono::Local::now().naive_local().and_utc();
    StampValue::new(utc.timestamp(), utc.timestamp_subsec_nanos())
}

fn schema1_parser() -> SwinstallParser {
    let mut parser = SwinstallParser::new();
    parser.register(SchemaWrapper::One(One::new()));
    parser.set_default_schema(String::from("1"));
    parser
}

fn attrs(pairs: &[(&str, &str)]) -> Vec<(String, String)> {
    pairs.iter().map(|(k, v)| (k.to_string(), v.to_string())).collect()
}

#[test]
fn one_elt_from_attrs() {
    let list = attrs(&[("is_current", "True"), ("version", "20161213-093146")]);
    let elt = Elt::from_attrs(&list).expect("could not create elt");
    let expected = Elt {
        is_current: Pybool::new(true),
        version: "20161213-093146".to_string(),
        revision: None,
    };
    assert_eq!(elt, expected);
}

#[test]
fn elt_from_attrs_with_revision() {
    let list = attrs(&[("is_current", "True"), ("version", "20161213-093146_r575055")]);
    let elt = Elt::from_attrs(&list).expect("could not create elt");
    let expected = Elt {
        is_current: Pybool::new(true),
        version: "20161213-093146".to_string(),
        revision: Some("r575055".to_string()),
    };
    assert_eq!(elt, expected);
}

#[test]
fn update_one() {
    let one = One::new();
    let swinstall_stack_elt_tags = r#"<elt is_current="True" version="20180702-144204"/>"#;
    let action = Action::Install("20190101-113000".to_string());
    let elem = Elt::new(Pybool::True, "20190101-113000".to_string());

    let result = one.update(action, swinstall_stack_elt_tags, ReturnElt::One(elem));
    assert!(result.is_ok());
    let result = String::from_utf8(result.unwrap()).unwrap();
    let expected = r#"<elt is_current="False" version="20180702-144204"/><elt is_current="True" version="20190101-113000"/>"#;
    assert_eq!(result.as_str(), expected);
}

#[test]
fn update_keeps_revision_when_flipping() {
    let one = One::new();
    let input = r#"<elt is_current="True" version="20161213-093146_r575055"/>"#;
    let elem = Elt::new(Pybool::True, "20190101-113000".to_string());
    let out = one
        .update(Action::Install("20190101-113000".to_string()), input, ReturnElt::One(elem))
        .unwrap();
    let out = String::from_utf8(out).unwrap();
    let expected = r#"<elt is_current="False" version="20161213-093146_r575055"/><elt is_current="True" version="20190101-113000"/>"#;
    assert_eq!(out.as_str(), expected);
}

#[test]
fn update_copies_other_records_verbatim() {
    let one = One::new();
    let input = r#"<elt is_current="False" version="20180101-000000" note="keep"/>"#;
    let elem = Elt::new(Pybool::True, "20190101-113000".to_string());
    let out = one
        .update(Action::Install("20190101-113000".to_string()), input, ReturnElt::One(elem))
        .unwrap();
    let out = String::from_utf8(out).unwrap();
    let expected = r#"<elt is_current="False" version="20180101-000000" note="keep"/><elt is_current="True" version="20190101-113000"/>"#;
    assert_eq!(out.as_str(), expected);
}

#[test]
fn one_update_rejects_other_actions() {
    let one = One::new();
    let elem = Elt::new(Pybool::True, "20190101-113000".to_string());
    let result = one.update(
        Action::Rollback("2".to_string()),
        r#"<elt is_current="True" version="20180702-144204"/>"#,
        ReturnElt::One(elem),
    );
    assert_eq!(
        result,
        Err(SwInstallError::UnsupportedAction("rollback".to_string()))
    );
}

#[test]
fn current_picks_flagged_record_over_later_ones() {
    // The currency flag wins over chronological position: the scan stops at
    // the flagged in-range record even though later records exist.
    let parser = schema1_parser();
    let doc = r#"<stack_history>
   <elt is_current="False" version="20181220-090624"/>
   <elt is_current="False" version="20181220-090616"/>
   <elt is_current="False" version="20181220-090608"/>
   <elt is_current="False" version="20181220-090333"/>
   <elt is_current="True" version="20161213-093146_r575055"/>
   <elt is_current="False" version="20181220-091955"/>
   <elt is_current="False" version="20181220-092031"/>
</stack_history>"#;
    let result = parser.current_at(doc, STACK, &now_stamp()).unwrap();
    assert_eq!(
        result.as_str(),
        "/dd/facility/etc/bak/packages.xml/packages.xml_20161213-093146_r575055"
    );
}

#[test]
fn out_of_range_record_returns_last_in_range() {
    // The scan also stops at the first record past the target, returning the
    // last in-range record even though it was never flagged current.
    let parser = schema1_parser();
    let doc = r#"<stack_history>
   <elt is_current="False" version="20180101-000000"/>
   <elt is_current="False" version="29990101-000000"/>
</stack_history>"#;
    let result = parser.current_at(doc, STACK, &now_stamp()).unwrap();
    assert_eq!(
        result.as_str(),
        "/dd/facility/etc/bak/packages.xml/packages.xml_20180101-000000"
    );
}

#[test]
fn no_record_in_range_is_no_current_found() {
    let parser = schema1_parser();
    let doc = r#"<stack_history>
   <elt is_current="True" version="29990101-000000"/>
</stack_history>"#;
    let result = parser.current_at(doc, STACK, &now_stamp());
    assert_eq!(result, Err(SwInstallError::NoCurrentFound));
}

#[test]
fn case_insensitive_currency_flag() {
    let list = attrs(&[("is_current", "TRUE"), ("version", "20161213-093146")]);
    let elt = Elt::from_attrs(&list).expect("could not create elt");
    assert_eq!(elt.is_current, Pybool::True);
}

#[test]
fn one_missing_attribute_reported() {
    let list = attrs(&[("is_current", "True")]);
    assert_eq!(
        Elt::from_attrs(&list),
        Err(SwInstallError::MissingEltAttribute)
    );
    let list = attrs(&[("version", "20161213-093146")]);
    assert_eq!(
        Elt::from_attrs(&list),
        Err(SwInstallError::MissingEltAttribute)
    );
}

#[test]
fn unreadable_flag_reported() {
    let list = attrs(&[("is_current", "Maybe"), ("version", "20161213-093146")]);
    assert_eq!(
        Elt::from_attrs(&list),
        Err(SwInstallError::RuntimeError("invalid input: maybe".to_string()))
    );
}

#[test]
fn malformed_timestamp_reported() {
    let parser = schema1_parser();
    let doc = r#"<stack_history><elt is_current="True" version="not-a-time"/></stack_history>"#;
    let result = parser.current_at(doc, STACK, &now_stamp());
    assert_eq!(
        result,
        Err(SwInstallError::ChronoParseError("not-a-time".to_string()))
    );
}

#[test]
fn version_splits_on_single_separator_only() {
    let e = Elt::new(Pybool::False, "a_b".to_string());
    assert_eq!(e.version, "a".to_string());
    assert_eq!(e.revision, Some("b".to_string()));
    assert_eq!(e.version(), "a_b".to_string());

    let e = Elt::new(Pybool::False, "plain".to_string());
    assert_eq!(e.version, "plain".to_string());
    assert_eq!(e.revision, None);
    assert_eq!(e.version(), "plain".to_string());

    // With two or more separators only the last piece is kept and there is
    // no revision.
    let e = Elt::new(Pybool::False, "a_b_c".to_string());
    assert_eq!(e.version, "c".to_string());
    assert_eq!(e.revision, None);
}

#[test]
fn round_trip_attrs_in_either_order() {
    for list in [
        attrs(&[("is_current", "True"), ("version", "20161213-093146_r575055")]),
        attrs(&[("version", "20161213-093146_r575055"), ("is_current", "True")]),
    ] {
        let elt = Elt::from_attrs(&list).expect("could not create elt");
        let encoded = elt.to_attrs();
        let mut sorted_in: Vec<(String, String)> = list.clone();
        sorted_in.sort();
        let mut sorted_out = encoded.clone();
        sorted_out.sort();
        assert_eq!(sorted_in, sorted_out);
    }
}

#[test]
fn leading_foreign_leaf_stops_the_scan() {
    // A self-closed element of another name re-evaluates the stop condition
    // before any record was seen, so the scan stops at once with nothing.
    let parser = schema1_parser();
    let doc = r#"<stack_history><foo/><elt is_current="True" version="20180101-000000"/></stack_history>"#;
    let result = parser.current_at(doc, STACK, &now_stamp());
    assert_eq!(result, Err(SwInstallError::NoCurrentFound));
}

#[test]
fn update_copies_container_tags_through() {
    let events = vec![
        ReadStep::Open(
            "stack_history".to_string(),
            Ok(vec![("path".to_string(), "/p".to_string())]),
            br#"<stack_history path="/p">"#.to_vec(),
        ),
        ReadStep::Leaf(
            "elt".to_string(),
            Ok(vec![
                ("is_current".to_string(), "True".to_string()),
                ("version".to_string(), "20180702-144204".to_string()),
            ]),
            br#"<elt is_current="True" version="20180702-144204"/>"#.to_vec(),
        ),
        ReadStep::Other(br#"</stack_history>"#.to_vec()),
        ReadStep::Eof,
    ];
    let one = One::new();
    let elem = Elt::new(Pybool::True, "20190101-113000".to_string());
    let mut out = XmlOut::new();
    one.update_events(&events, &elem, &mut out).unwrap();
    let out = String::from_utf8(out.into_bytes()).unwrap();
    // The new record goes out when the end of the stream is reached, which
    // is after the container's end tag was copied through.
    let expected = r#"<stack_history path="/p"><elt is_current="False" version="20180702-144204"/></stack_history><elt is_current="True" version="20190101-113000"/>"#;
    assert_eq!(out.as_str(), expected);
}

#[test]
fn one_update_preserves_document_text() {
    // Declaration, newlines, comments and the original quoting of untouched
    // records all go through byte-for-byte; only the flipped record is
    // re-encoded and the new record appended.
    let one = One::new();
    let input = "<?xml version=\"1.0\"?>\n<stack_history>\n   <elt is_current='False' version='20180101-000000'/>\n   <!-- kept -->\n</stack_history>\n";
    let elem = Elt::new(Pybool::True, "20190101-113000".to_string());
    let out = one
        .update(Action::Install("20190101-113000".to_string()), input, ReturnElt::One(elem))
        .unwrap();
    let out = String::from_utf8(out).unwrap();
    let expected = "<?xml version=\"1.0\"?>\n<stack_history>\n   <elt is_current='False' version='20180101-000000'/>\n   <!-- kept -->\n</stack_history>\n<elt is_current=\"True\" version=\"20190101-113000\"/>";
    assert_eq!(out.as_str(), expected);
}
