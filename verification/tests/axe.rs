use qorvex_core::axe::{Axe, AxeError};
use qorvex_core::element::{ElementFrame, UIElement};

fn el(id: Option<&str>, label: Option<&str>, ty: Option<&str>, children: Vec<UIElement>) -> UIElement {
    UIElement {
        identifier: id.map(|s| s.to_string()),
        label: label.map(|s| s.to_string()),
        value: None,
        element_type: ty.map(|s| s.to_string()),
        frame: None,
        children,
        role: None,
        hittable: None,
    }
}

fn tree() -> Vec<UIElement> {
    vec![el(
        Some("root"),
        Some("Root"),
        Some("Window"),
        vec![
            el(Some("login-button"), Some("Log In"), Some("Button"), vec![]),
            el(None, None, Some("Group"), vec![el(Some("deep"), Some("Deep"), Some("Text"), vec![])]),
        ],
    )]
}

#[test]
fn test_find_element_direct_match() {
    let found = Axe::find_element(&tree(), "root").unwrap();
    assert_eq!(found.identifier.as_deref(), Some("root"));
}

#[test]
fn test_find_element_nested() {
    let found = Axe::find_element(&tree(), "login-button").unwrap();
    assert_eq!(found.label.as_deref(), Some("Log In"));
}

#[test]
fn test_find_element_deeply_nested() {
    let found = Axe::find_element(&tree(), "deep").unwrap();
    assert_eq!(found.element_type.as_deref(), Some("Text"));
}

#[test]
fn test_find_element_not_found() {
    assert!(Axe::find_element(&tree(), "missing").is_none());
    // Exact matching: no glob patterns.
    assert!(Axe::find_element(&tree(), "login-*").is_none());
}

#[test]
fn test_find_element_empty_hierarchy() {
    assert!(Axe::find_element(&[], "x").is_none());
}

#[test]
fn test_find_element_by_label_direct_match() {
    let root = &tree()[0];
    assert_eq!(Axe::find_element_by_label(root, "Root").unwrap().identifier.as_deref(), Some("root"));
}

#[test]
fn test_find_element_by_label_nested() {
    let root = &tree()[0];
    assert_eq!(
        Axe::find_element_by_label(root, "Deep").unwrap().identifier.as_deref(),
        Some("deep")
    );
    assert!(Axe::find_element_by_label(root, "Nope").is_none());
    assert_eq!(
        Axe::find_elements_by_label(&tree(), "Log In").unwrap().identifier.as_deref(),
        Some("login-button")
    );
}

#[test]
fn test_find_element_with_type_by_id() {
    assert!(Axe::find_element_with_type(&tree(), "login-button", false, Some("Button")).is_some());
    assert!(Axe::find_element_with_type(&tree(), "login-button", false, Some("Text")).is_none());
}

#[test]
fn test_find_element_with_type_by_label() {
    let found = Axe::find_element_with_type(&tree(), "Deep", true, Some("Text")).unwrap();
    assert_eq!(found.identifier.as_deref(), Some("deep"));
}

#[test]
fn test_list_elements_excludes_unlabeled() {
    let listed = Axe::list_elements(&tree());
    let ids: Vec<Option<&str>> = listed.iter().map(|e| e.identifier.as_deref()).collect();
    assert_eq!(ids, vec![Some("root"), Some("login-button"), Some("deep")]);
}

#[test]
fn values_are_none_without_a_value() {
    let mut t = tree();
    t[0].children[0].value = Some("pressed".into());
    assert_eq!(Axe::get_element_value(&t, "login-button").unwrap(), Some("pressed".into()));
    assert_eq!(Axe::get_element_value(&t, "deep").unwrap(), None);
    match Axe::get_element_value(&t, "missing") {
        Err(AxeError::CommandFailed(m)) => assert_eq!(m, "Element 'missing' not found"),
        other => panic!("expected CommandFailed, got {other:?}"),
    }
    match Axe::get_element_value_by_label(&t, "Gone") {
        Err(AxeError::CommandFailed(m)) => assert_eq!(m, "Element with label 'Gone' not found"),
        other => panic!("expected CommandFailed, got {other:?}"),
    }
    assert_eq!(
        Axe::get_value_with_type(&t, "Deep", true, "Text").unwrap(),
        None
    );
    assert_eq!(Axe::get_element_value_by_label(&t, "Deep").unwrap(), None);
}

#[test]
fn tap_with_type_needs_a_frame() {
    let mut t = tree();
    match Axe::tap_with_type(&t, "login-button", false, "Button") {
        Err(AxeError::CommandFailed(m)) => assert_eq!(m, "Element has no frame"),
        other => panic!("expected no frame, got {other:?}"),
    }
    let f = ElementFrame { x: 1f64.to_bits(), y: 2f64.to_bits(), width: 3f64.to_bits(), height: 4f64.to_bits() };
    t[0].children[0].frame = Some(f);
    assert_eq!(Axe::tap_with_type(&t, "login-button", false, "Button").unwrap(), f);
    match Axe::tap_with_type(&t, "x", true, "Button") {
        Err(AxeError::CommandFailed(m)) => {
            assert_eq!(m, "Element with label 'x' and type 'Button' not found")
        }
        other => panic!("expected not found, got {other:?}"),
    }
}

#[test]
fn test_axe_error_display() {
    assert_eq!(AxeError::CommandFailed("oops".into()).message(), "Command execution failed: oops");
    assert!(AxeError::NotInstalled.message().contains("brew install"));
}

#[test]
fn axe_arguments() {
    assert_eq!(Axe::tap_args("U", 10, -2), vec!["tap", "-x", "10", "-y", "-2", "--udid", "U"]);
    assert_eq!(Axe::describe_args("U"), vec!["describe-ui", "--udid", "U"]);
}
