//! The registry and the full resolution path, end to end over in-memory
//! documents.

use swinstall_stack::SwInstallError;
use swinstall_stack::parser::SwinstallParser;
use swinstall_stack::schemas::SchemaWrapper;
use swinstall_stack::schemas::one::One;
use swinstall_stack::schemas::two::Two;
use swinstall_stack::stamp::StampValue;

const SCHEMA1_XML: &str = r#"<stack_history path="/dd/facility/etc/bak/packages.xml/packages.xml_swinstall_stack">
   <elt is_current="False" version="20181220-090624"/>
   <elt is_current="False" version="20181220-090616"/>
   <elt is_current="False" version="20181220-090608"/>
   <elt is_current="False" version="20181220-090333"/>
   <elt is_current="True" version="20161213-093146_r575055"/>
   <elt is_current="False" version="20181220-091955"/>
   <elt is_current="False" version="20181220-092031"/>
</stack_history>"#;

const SCHEMA2_XML: &str = r#"<?xml version="1.0" encoding="UTF-8"?>
<stack_history path="/Users/jonathangerber/src/rust/swinstall_stack/examples/schema2/bak/packages.xml/packages.xml_swinstall_stack" schema="2">
   <elt action="install" datetime="20181221-142313" hash="c618755af9b63728411bc536d2c60cf2" version="5"/>
   <elt action="install" datetime="20181221-142248" hash="5c8fdabe2ae7fa9287c0672b88ef6593" version="4"/>
   <elt action="rollback" datetime="20181221-102242" hash="294fc86579b14b7d39" version="1"/>
   <elt action="rollback" datetime="20181221-102344" hash="c94f6266789a483a43" version="2"/>
   <elt action="install" datetime="20180702-144204" hash="194f835569a79ba433" version="3"/>
   <elt action="install" datetime="20180101-103813" hash="c94f6266789a483a43" version="2"/>
   <elt action="install" datetime="20171106-104603" hash="294fc86579b14b7d39" version="1"/>
</stack_history>"#;

const STACK: &str = "/dd/facility/etc/bak/packages.xml/packages.xml_swinstall_stack";

fn setup_parser() -> SwinstallParser {
    let mycur = One::new();
    let mycur2 = Two::new();
    let mut parser = SwinstallParser::new();
    parser.register(SchemaWrapper::One(mycur));
    parser.register(SchemaWrapper::Two(mycur2));
    parser.set_default_schema(String::from("1"));
    parser
}

fn now_stamp() -> StampValue {
    let utc = chrono::Local::now().naive_local().and_utc();
    StampValue::new(utc.timestamp(), utc.timestamp_subsec_nanos())
}

#[test]
fn register_schema() {
    let parser = setup_parser();
    assert_eq!(parser.schema_count(), 2);
}

#[test]
fn get_swinstall_parser() {
    let parser = setup_parser();
    if let Some(result) = parser.get_component("2") {
        assert_eq!(result.schema(), "2");
    } else {
        panic!("unable to get schema 2");
    };

    if let Some(result) = parser.get_component("1") {
        assert_eq!(result.schema(), "1");
    } else {
        panic!("unable to get schema 1");
    };
}

#[test]
fn get_parser_current_schema1() {
    let parser = setup_parser();
    let result = parser.current_at(SCHEMA1_XML, STACK, &now_stamp()).unwrap();
    assert_eq!(
        result.as_str(),
        "/dd/facility/etc/bak/packages.xml/packages.xml_20161213-093146_r575055"
    );
}

#[test]
fn get_parser_current_schema2() {
    let parser = setup_parser();
    let result = parser.current_at(SCHEMA2_XML, STACK, &now_stamp()).unwrap();
    assert_eq!(
        result.as_str(),
        "/dd/facility/etc/bak/packages.xml/packages.xml_5"
    );
}

#[test]
fn unknown_schema_is_no_such_schema() {
    let parser = setup_parser();
    let doc = r#"<stack_history schema="3"><elt is_current="True" version="20180101-000000"/></stack_history>"#;
    let result = parser.current_at(doc, STACK, &now_stamp());
    assert_eq!(result, Err(SwInstallError::NoSuchSchema("3".to_string())));
}

#[test]
fn missing_root_is_no_current_found() {
    let parser = setup_parser();
    let doc = r#"<other_document><elt is_current="True" version="20180101-000000"/></other_document>"#;
    let result = parser.current_at(doc, STACK, &now_stamp());
    assert_eq!(result, Err(SwInstallError::NoCurrentFound));
}

#[test]
fn no_default_schema_reported() {
    let mut parser = SwinstallParser::new();
    parser.register(SchemaWrapper::One(One::new()));
    let doc = r#"<stack_history><elt is_current="True" version="20180101-000000"/></stack_history>"#;
    let result = parser.current_at(doc, STACK, &now_stamp());
    assert_eq!(result, Err(SwInstallError::NoDefaultSchema));
}

#[test]
fn declared_schema_overrides_default() {
    let parser = setup_parser();
    // The default is schema 1, but the root declares schema 2.
    let doc = r#"<stack_history schema="2"><elt action="install" datetime="20180101-103813" hash="abc" version="7"/></stack_history>"#;
    let result = parser.current_at(doc, STACK, &now_stamp()).unwrap();
    assert_eq!(
        result.as_str(),
        "/dd/facility/etc/bak/packages.xml/packages.xml_7"
    );
}

#[test]
fn set_default_schema_requires_registration() {
    let mut parser = SwinstallParser::new();
    assert!(!parser.set_default_schema(String::from("1")));
    parser.register(SchemaWrapper::One(One::new()));
    assert!(parser.set_default_schema(String::from("1")));
    assert!(!parser.set_default_schema(String::from("9")));
}

#[test]
fn last_registration_wins() {
    let mut parser = SwinstallParser::new();
    parser.register(SchemaWrapper::One(One::new()));
    parser.register(SchemaWrapper::Two(Two::new()));
    let got = parser.get_component("1").expect("schema 1 registered");
    assert_eq!(got.schema(), "1");
    assert!(parser.get_component("3").is_none());
}

#[test]
fn declared_schema_works_without_default() {
    let mut parser = SwinstallParser::new();
    parser.register(SchemaWrapper::Two(Two::new()));
    let doc = r#"<stack_history schema="2"><elt action="install" datetime="20180101-103813" hash="abc" version="7"/></stack_history>"#;
    let result = parser.current_at(doc, STACK, &now_stamp()).unwrap();
    assert_eq!(
        result.as_str(),
        "/dd/facility/etc/bak/packages.xml/packages.xml_7"
    );
}
