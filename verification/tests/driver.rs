use qorvex_core::driver::{
    flatten_elements, glob_match, search_by_identifier, search_by_label, search_with_type,
    DriverConfig, DriverError,
};
use qorvex_core::element::{ElementFrame, UIElement};

fn el(id: Option<&str>, label: Option<&str>, ty: Option<&str>, children: Vec<UIElement>) -> UIElement {
    UIElement {
        identifier: id.map(|s| s.to_string()),
        label: label.map(|s| s.to_string()),
        value: None,
        element_type: ty.map(|s| s.to_string()),
        frame: None,
        children,
        role: None,
        hittable: None,
    }
}

#[test]
fn test_driver_error_display() {
    let err = DriverError::CommandFailed("tap failed".to_string());
    assert!(err.message().contains("tap failed"));
    let err = DriverError::NotConnected;
    assert!(err.message().contains("Not connected"));
    let err = DriverError::ConnectionLost("reset by peer".to_string());
    assert!(err.message().contains("reset by peer"));
    let err = DriverError::Timeout;
    assert!(err.message().contains("timed out"));
    let err = DriverError::JsonParse("unexpected token".to_string());
    assert!(err.message().contains("unexpected token"));
}

#[test]
fn test_driver_config_variants() {
    let config = DriverConfig::Agent { host: "localhost".to_string(), port: 9123 };
    match config {
        DriverConfig::Agent { ref host, port } => {
            assert_eq!(host, "localhost");
            assert_eq!(port, 9123);
        }
        _ => panic!("Expected Agent variant"),
    }
    let cloned = config.clone();
    assert!(matches!(cloned, DriverConfig::Agent { .. }));
    let config = DriverConfig::Device {
        udid: "00008110-001A0C123456789A".to_string(),
        device_port: 8080,
    };
    match config {
        DriverConfig::Device { ref udid, device_port } => {
            assert_eq!(udid, "00008110-001A0C123456789A");
            assert_eq!(device_port, 8080);
        }
        _ => panic!("Expected Device variant"),
    }
}

#[test]
fn test_flatten_elements_basic() {
    let elements = vec![el(
        Some("root"),
        Some("Root"),
        Some("View"),
        vec![
            el(Some("child-1"), None, Some("Button"), vec![]),
            el(None, Some("Label Only"), Some("StaticText"), vec![]),
        ],
    )];
    let flat = flatten_elements(&elements);
    assert_eq!(flat.len(), 3);
    assert_eq!(flat[0].identifier.as_deref(), Some("root"));
    assert_eq!(flat[1].identifier.as_deref(), Some("child-1"));
    assert_eq!(flat[2].label.as_deref(), Some("Label Only"));
}

#[test]
fn test_flatten_elements_excludes_unlabeled() {
    let elements = vec![el(None, None, Some("View"), vec![el(Some("included"), None, Some("Button"), vec![])])];
    let flat = flatten_elements(&elements);
    assert_eq!(flat.len(), 1);
    assert_eq!(flat[0].identifier.as_deref(), Some("included"));
}

#[test]
fn test_flatten_elements_empty() {
    let elements: Vec<UIElement> = vec![];
    let flat = flatten_elements(&elements);
    assert!(flat.is_empty());
}

#[test]
fn test_flatten_elements_deeply_nested() {
    let mut level3 = el(Some("level3"), Some("Deep"), Some("Button"), vec![]);
    level3.frame = Some(ElementFrame {
        x: 10.0f64.to_bits(),
        y: 20.0f64.to_bits(),
        width: 100.0f64.to_bits(),
        height: 44.0f64.to_bits(),
    });
    let elements = vec![el(
        Some("level0"),
        None,
        None,
        vec![el(None, None, None, vec![el(Some("level2"), None, None, vec![level3])])],
    )];
    let flat = flatten_elements(&elements);
    assert_eq!(flat.len(), 3);
    assert_eq!(flat[0].identifier.as_deref(), Some("level0"));
    assert_eq!(flat[1].identifier.as_deref(), Some("level2"));
    assert_eq!(flat[2].identifier.as_deref(), Some("level3"));
    assert_eq!(flat[2].frame.unwrap().width, 100.0f64.to_bits());
}

#[test]
fn test_flatten_elements_with_mixed_hierarchy() {
    let elements = vec![el(
        Some("main-view"),
        Some("Main View"),
        Some("View"),
        vec![
            el(Some("login-button"), Some("Log In"), Some("Button"), vec![]),
            el(None, None, Some("View"), vec![el(Some("nested"), None, Some("TextField"), vec![])]),
        ],
    )];
    let flat = flatten_elements(&elements);
    assert_eq!(flat.len(), 3);
    assert_eq!(flat[0].identifier.as_deref(), Some("main-view"));
    assert_eq!(flat[1].identifier.as_deref(), Some("login-button"));
    assert_eq!(flat[2].identifier.as_deref(), Some("nested"));
}

#[test]
fn test_search_by_identifier_exact() {
    let elements = vec![el(Some("root"), None, None, vec![el(Some("child-btn"), Some("Click Me"), Some("Button"), vec![])])];
    let found = search_by_identifier(&elements, "child-btn");
    assert!(found.is_some());
    assert_eq!(found.unwrap().identifier.as_deref(), Some("child-btn"));
    let not_found = search_by_identifier(&elements, "nonexistent");
    assert!(not_found.is_none());
}

#[test]
fn test_search_by_identifier_glob() {
    let elements = vec![el(Some("login-button"), None, None, vec![el(Some("email-field"), None, None, vec![])])];
    let found = search_by_identifier(&elements, "login-*");
    assert!(found.is_some());
    assert_eq!(found.unwrap().identifier.as_deref(), Some("login-button"));
    let found = search_by_identifier(&elements, "*-field");
    assert!(found.is_some());
    assert_eq!(found.unwrap().identifier.as_deref(), Some("email-field"));
}

#[test]
fn test_search_by_label_exact() {
    let elements = vec![el(None, Some("Submit"), None, vec![])];
    assert!(search_by_label(&elements, "Submit").is_some());
    assert!(search_by_label(&elements, "Cancel").is_none());
}

#[test]
fn test_search_by_label_glob() {
    let elements = vec![el(None, Some("Log In"), None, vec![])];
    let found = search_by_label(&elements, "Log*");
    assert!(found.is_some());
    assert_eq!(found.unwrap().label.as_deref(), Some("Log In"));
}

#[test]
fn test_search_with_type_by_id_and_type() {
    let elements = vec![el(Some("submit-btn"), Some("Submit"), Some("Button"), vec![])];
    assert!(search_with_type(&elements, "submit-btn", false, Some("Button")).is_some());
    assert!(search_with_type(&elements, "submit-btn", false, Some("TextField")).is_none());
    assert!(search_with_type(&elements, "Submit", true, None).is_some());
}

#[test]
fn search_prefers_parent_before_children_and_children_before_siblings() {
    let elements = vec![
        el(Some("a"), None, None, vec![el(Some("item-1"), None, None, vec![])]),
        el(Some("item-2"), None, None, vec![]),
    ];
    let found = search_by_identifier(&elements, "item-?").unwrap();
    assert_eq!(found.identifier.as_deref(), Some("item-1"));
}

#[test]
fn test_glob_match_exact() {
    assert!(glob_match("hello", "hello"));
    assert!(!glob_match("hello", "world"));
}

#[test]
fn test_glob_match_star() {
    assert!(glob_match("Log*", "Log In"));
    assert!(glob_match("Log*", "Login"));
    assert!(glob_match("Log*", "Log"));
    assert!(!glob_match("Log*", "Blog"));
}

#[test]
fn test_glob_match_question_mark() {
    assert!(glob_match("Item ?", "Item 1"));
    assert!(glob_match("Item ?", "Item A"));
    assert!(!glob_match("Item ?", "Item 12"));
}

#[test]
fn test_glob_match_combined() {
    assert!(glob_match("Tab ?*", "Tab 1 Selected"));
    assert!(glob_match("Tab ?*", "Tab 1"));
    assert!(!glob_match("Tab ?*", "Tab "));
}

#[test]
fn glob_match_star_alone_matches_everything() {
    assert!(glob_match("*", ""));
    assert!(glob_match("*", "anything at all"));
    assert!(glob_match("**a", "bca"));
    assert!(!glob_match("?", ""));
}
