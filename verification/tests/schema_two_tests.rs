//! The schema-2 codec, scan and rewrite.

use swinstall_stack::SwInstallError;
use swinstall_stack::actions::Action;
use swinstall_stack::parser::SwinstallParser;
use swinstall_stack::schemas::ReturnElt;
use swinstall_stack::schemas::SchemaWrapper;
use swinstall_stack::schemas::two::Elt;
use swinstall_stack::schemas::two::Two;
use swinstall_stack::stamp::StampValue;

const STACK: &str = "/dd/facility/etc/bak/packages.xml/packages.xml_swinstall_stack";

fn now_stamp() -> StampValue {
    let utc = chrono::Local::now().naive_local().and_utc();
    StampValue::new(utc.timestamp(), utc.timestamp_subsec_nanos())
}

fn schema2_parser() -> SwinstallParser {
    let mut parser = SwinstallParser::new();
    parser.register(SchemaWrapper::Two(Two::new()));
    parser.set_default_schema(String::from("2"));
    parser
}

fn attrs(pairs: &[(&str, &str)]) -> Vec<(String, String)> {
    pairs.iter().map(|(k, v)| (k.to_string(), v.to_string())).collect()
}

#[test]
fn two_elt_from_attrs() {
    let list = attrs(&[
        ("action", "install"),
        ("datetime", "20180702-144204"),
        ("hash", "194f835569a79ba433"),
        ("version", "3"),
    ]);
    let elt = Elt::from_attrs(&list).expect("could not create elt");
    let expected = Elt {
        action: String::from("install"),
        datetime: "20180702-144204".to_string(),
        hash: String::from("194f835569a79ba433"),
        version: "3".to_string(),
    };
    assert_eq!(elt, expected);
}

#[test]
fn update_two() {
    let two = Two::new();
    let swinstall_stack_elt_tags = r#"<elt action="install" datetime="20180702-144204" hash="194f835569a79ba433" version="3"/>"#;
    let action = Action::Install("4".to_string());
    let elem = Elt::new(
        action.to_string(),
        "20190101-113000".to_string(),
        "124a835569a79ba433".to_string(),
        "4".to_string(),
    );
    let result = two.update(action, swinstall_stack_elt_tags, ReturnElt::Two(elem));
    assert!(result.is_ok());
    let result = String::from_utf8(result.unwrap()).unwrap();
    let expected = r#"<elt action="install" datetime="20190101-113000" hash="124a835569a79ba433" version="4"/><elt action="install" datetime="20180702-144204" hash="194f835569a79ba433" version="3"/>"#;
    assert_eq!(result.as_str(), expected);
}

#[test]
fn update_preserves_later_records_byte_for_byte() {
    let two = Two::new();
    let input = r#"<elt action="install" datetime="20180702-144204" hash="aa" version="3"/><elt action="rollback" datetime="20180101-103813" hash="bb" version="2"/>"#;
    let elem = Elt::new(
        "install".to_string(),
        "20190101-113000".to_string(),
        "cc".to_string(),
        "4".to_string(),
    );
    let out = two.update(Action::Install("4".to_string()), input, ReturnElt::Two(elem)).unwrap();
    let out = String::from_utf8(out).unwrap();
    let expected = r#"<elt action="install" datetime="20190101-113000" hash="cc" version="4"/><elt action="install" datetime="20180702-144204" hash="aa" version="3"/><elt action="rollback" datetime="20180101-103813" hash="bb" version="2"/>"#;
    assert_eq!(out.as_str(), expected);
}

#[test]
fn two_update_rejects_other_actions() {
    let two = Two::new();
    let elem = Elt::new(
        "rollforward".to_string(),
        "20190101-113000".to_string(),
        "cc".to_string(),
        "4".to_string(),
    );
    let result = two.update(
        Action::Rollforward("4".to_string()),
        r#"<elt action="install" datetime="20180702-144204" hash="aa" version="3"/>"#,
        ReturnElt::Two(elem),
    );
    assert_eq!(
        result,
        Err(SwInstallError::UnsupportedAction("rollforward".to_string()))
    );
}

#[test]
fn current_is_first_record_at_or_before_target() {
    // The newest-first scan skips records after the target and stops at the
    // first one at or before it.
    let parser = schema2_parser();
    let doc = r#"<stack_history schema="2">
   <elt action="install" datetime="29990101-000000" hash="aa" version="9"/>
   <elt action="install" datetime="20180702-144204" hash="bb" version="3"/>
   <elt action="install" datetime="20180101-103813" hash="cc" version="2"/>
</stack_history>"#;
    let result = parser.current_at(doc, STACK, &now_stamp()).unwrap();
    assert_eq!(
        result.as_str(),
        "/dd/facility/etc/bak/packages.xml/packages.xml_3"
    );
}

#[test]
fn full_history_resolves_newest_install() {
    let parser = schema2_parser();
    let doc = r#"<stack_history schema="2">
   <elt action="install" datetime="20181221-142313" hash="c618755af9b63728411bc536d2c60cf2" version="5"/>
   <elt action="install" datetime="20181221-142248" hash="5c8fdabe2ae7fa9287c0672b88ef6593" version="4"/>
   <elt action="rollback" datetime="20181221-102242" hash="294fc86579b14b7d39" version="1"/>
   <elt action="rollback" datetime="20181221-102344" hash="c94f6266789a483a43" version="2"/>
   <elt action="install" datetime="20180702-144204" hash="194f835569a79ba433" version="3"/>
   <elt action="install" datetime="20180101-103813" hash="c94f6266789a483a43" version="2"/>
   <elt action="install" datetime="20171106-104603" hash="294fc86579b14b7d39" version="1"/>
</stack_history>"#;
    let result = parser.current_at(doc, STACK, &now_stamp()).unwrap();
    assert_eq!(
        result.as_str(),
        "/dd/facility/etc/bak/packages.xml/packages.xml_5"
    );
}

#[test]
fn all_records_after_target_is_no_current_found() {
    let parser = schema2_parser();
    let doc = r#"<stack_history schema="2">
   <elt action="install" datetime="29990101-000000" hash="aa" version="9"/>
</stack_history>"#;
    let result = parser.current_at(doc, STACK, &now_stamp());
    assert_eq!(result, Err(SwInstallError::NoCurrentFound));
}

#[test]
fn two_missing_attribute_reported() {
    let list = attrs(&[("action", "install"), ("datetime", "20180702-144204"), ("hash", "aa")]);
    assert_eq!(
        Elt::from_attrs(&list),
        Err(SwInstallError::MissingEltAttribute)
    );
}

#[test]
fn malformed_datetime_reported() {
    let parser = schema2_parser();
    let doc = r#"<stack_history schema="2"><elt action="install" datetime="20181313-256190" hash="aa" version="1"/></stack_history>"#;
    let result = parser.current_at(doc, STACK, &now_stamp());
    assert_eq!(
        result,
        Err(SwInstallError::ChronoParseError("20181313-256190".to_string()))
    );
}

#[test]
fn round_trip_attrs_in_any_order() {
    for list in [
        attrs(&[
            ("action", "install"),
            ("datetime", "20180702-144204"),
            ("hash", "aa"),
            ("version", "3"),
        ]),
        attrs(&[
            ("version", "3"),
            ("hash", "aa"),
            ("datetime", "20180702-144204"),
            ("action", "install"),
        ]),
        attrs(&[
            ("hash", "aa"),
            ("action", "install"),
            ("version", "3"),
            ("datetime", "20180702-144204"),
        ]),
    ] {
        let elt = Elt::from_attrs(&list).expect("could not create elt");
        let encoded = elt.to_attrs();
        let mut sorted_in: Vec<(String, String)> = list.clone();
        sorted_in.sort();
        let mut sorted_out = encoded.clone();
        sorted_out.sort();
        assert_eq!(sorted_in, sorted_out);
    }
}

#[test]
fn update_inserts_even_without_records() {
    // With no existing record element the new record still goes in: it is
    // written when the end of the stream is reached.
    let two = Two::new();
    let elem = Elt::new(
        "install".to_string(),
        "20190101-113000".to_string(),
        "cc".to_string(),
        "4".to_string(),
    );
    let out = two.update(Action::Install("4".to_string()), "", ReturnElt::Two(elem)).unwrap();
    let out = String::from_utf8(out).unwrap();
    assert_eq!(
        out.as_str(),
        r#"<elt action="install" datetime="20190101-113000" hash="cc" version="4"/>"#
    );
}

#[test]
fn two_update_preserves_document_text() {
    // Declaration, newlines and indentation go through byte-for-byte; the
    // new record lands immediately before the first existing one.
    let two = Two::new();
    let input = "<?xml version=\"1.0\" encoding=\"UTF-8\"?>\n<stack_history schema=\"2\">\n   <elt action=\"install\" datetime=\"20180702-144204\" hash=\"aa\" version=\"3\"/>\n</stack_history>\n";
    let elem = Elt::new(
        "install".to_string(),
        "20190101-113000".to_string(),
        "cc".to_string(),
        "4".to_string(),
    );
    let out = two.update(Action::Install("4".to_string()), input, ReturnElt::Two(elem)).unwrap();
    let out = String::from_utf8(out).unwrap();
    let expected = "<?xml version=\"1.0\" encoding=\"UTF-8\"?>\n<stack_history schema=\"2\">\n   <elt action=\"install\" datetime=\"20190101-113000\" hash=\"cc\" version=\"4\"/><elt action=\"install\" datetime=\"20180702-144204\" hash=\"aa\" version=\"3\"/>\n</stack_history>\n";
    assert_eq!(out.as_str(), expected);
}
