//! Path derivation, and the small token types.

use swinstall_stack::SwInstallError;
use swinstall_stack::actions::Action;
use swinstall_stack::pybool::Pybool;
use swinstall_stack::stamp::StampValue;
use swinstall_stack::utils::swinstall_stack_from_versionless;
use swinstall_stack::utils::versioned_from_swinstall_stack;
use swinstall_stack::utils::versioned_from_versionless;

#[test]
fn swinstall_stack_from_versionless_file() {
    let path_str = "/dd/facility/etc/packages.xml";
    let expected = "/dd/facility/etc/bak/packages.xml/packages.xml_swinstall_stack";
    let path = swinstall_stack_from_versionless(path_str);
    assert_eq!(path.unwrap(), expected);
}

#[test]
fn versioned_file_from_versionless_file() {
    let path_str = "/dd/facility/etc/packages.xml";
    let expected = "/dd/facility/etc/bak/packages.xml/packages.xml_0002";
    let path = versioned_from_versionless(path_str, "0002");
    assert_eq!(path.unwrap(), expected);
}

#[test]
fn versioned_file_from_swinstall_stack() {
    let path_str = "/dd/facility/etc/bak/packages.xml/packages.xml_swinstall_stack";
    let expected = "/dd/facility/etc/bak/packages.xml/packages.xml_0002";
    let path = versioned_from_swinstall_stack(path_str, "0002");
    assert_eq!(path.unwrap(), expected);
}

#[test]
fn relative_subject_paths_work() {
    assert_eq!(
        swinstall_stack_from_versionless("packages.xml").unwrap(),
        "bak/packages.xml/packages.xml_swinstall_stack"
    );
}

#[test]
fn missing_base_name_reported() {
    // No component at all, or a last component that is not a real name.
    assert_eq!(
        swinstall_stack_from_versionless(""),
        Err(SwInstallError::NoFileNameFromPath)
    );
    assert_eq!(
        swinstall_stack_from_versionless("/"),
        Err(SwInstallError::NoFileNameFromPath)
    );
    assert_eq!(
        swinstall_stack_from_versionless("."),
        Err(SwInstallError::NoFileNameFromPath)
    );
    assert_eq!(
        swinstall_stack_from_versionless(".."),
        Err(SwInstallError::NoFileNameFromPath)
    );
    assert_eq!(
        versioned_from_versionless("a/..", "0002"),
        Err(SwInstallError::NoFileNameFromPath)
    );
    assert_eq!(
        versioned_from_swinstall_stack("lone_file", "0002"),
        Err(SwInstallError::NoFileNameFromPath)
    );
}

#[test]
fn trailing_separators_are_ignored() {
    // A trailing separator does not hide the base name.
    assert_eq!(
        swinstall_stack_from_versionless("x/").unwrap(),
        "bak/x/x_swinstall_stack"
    );
    assert_eq!(
        versioned_from_versionless("/dd/etc/", "0002").unwrap(),
        "/dd/bak/etc/etc_0002"
    );
    assert_eq!(
        versioned_from_swinstall_stack("a/b/c/", "v").unwrap(),
        "a/b/b_v"
    );
}

#[test]
fn leading_dot_component_is_kept() {
    assert_eq!(
        swinstall_stack_from_versionless("./packages.xml").unwrap(),
        "./bak/packages.xml/packages.xml_swinstall_stack"
    );
}

#[test]
fn pybool_spellings() {
    assert_eq!(Pybool::from_str("True"), Ok(Pybool::True));
    assert_eq!(Pybool::from_str("true"), Ok(Pybool::True));
    assert_eq!(Pybool::from_str("False"), Ok(Pybool::False));
    assert_eq!(Pybool::from_str("false"), Ok(Pybool::False));
    assert_eq!(
        Pybool::from_str("yes"),
        Err(SwInstallError::RuntimeError("invalid input: yes".to_string()))
    );
    assert_eq!(Pybool::new(true), Pybool::True);
    assert_eq!(Pybool::new(false), Pybool::False);
    assert!(Pybool::True.as_bool());
    assert!(!Pybool::False.as_bool());
    assert_eq!(Pybool::True.to_string(), "True".to_string());
    assert_eq!(Pybool::False.to_string(), "False".to_string());
}

#[test]
fn action_names_and_versions() {
    let a = Action::from_str("install", "5").unwrap();
    assert_eq!(a, Action::Install("5".to_string()));
    assert_eq!(a.to_string(), "install".to_string());
    assert_eq!(a.version(), "5".to_string());
    assert_eq!(
        Action::from_str("rollback", "2").unwrap().to_string(),
        "rollback".to_string()
    );
    assert_eq!(
        Action::from_str("rollforward", "3").unwrap().to_string(),
        "rollforward".to_string()
    );
    assert_eq!(
        Action::from_str("upgrade", "1"),
        Err(SwInstallError::InvalidAction("upgrade".to_string()))
    );
}

#[test]
fn timestamps_compare_chronologically() {
    let earlier = swinstall_stack::stamp::parse_timestamp("20180101-103813").unwrap();
    let later = swinstall_stack::stamp::parse_timestamp("20181221-142313").unwrap();
    assert!(earlier.le(&later));
    assert!(!later.le(&earlier));
    assert!(earlier.le(&earlier));
    assert_eq!(
        swinstall_stack::stamp::parse_timestamp("20181313-000000"),
        Err(SwInstallError::ChronoParseError("20181313-000000".to_string()))
    );
    let made = StampValue::new(3, 7);
    assert!(StampValue::new(3, 6).le(&made));
    assert!(!StampValue::new(4, 0).le(&made));
}
