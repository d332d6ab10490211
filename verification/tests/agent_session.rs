use qorvex_core::agent_session::{
    expect_ok, expect_tree, expect_value, response_debug_text, target_info, AgentTargetInfo,
};
use qorvex_core::driver::DriverError;
use qorvex_core::protocol::Response;

#[test]
fn response_debug_text_matches_variant_layout() {
    assert_eq!(response_debug_text(&Response::Success), "Ok");
    assert_eq!(
        response_debug_text(&Response::Error { message: "bad \"x\"".into() }),
        "Error { message: \"bad \\\"x\\\"\" }"
    );
    assert_eq!(
        response_debug_text(&Response::Screenshot { data: vec![137, 80, 0] }),
        "Screenshot { data: [137, 80, 0] }"
    );
    assert_eq!(
        response_debug_text(&Response::Screenshot { data: vec![] }),
        "Screenshot { data: [] }"
    );
    assert_eq!(
        response_debug_text(&Response::Value { value: Some("v".into()) }),
        "Value { value: Some(\"v\") }"
    );
    assert_eq!(
        response_debug_text(&Response::Value { value: None }),
        "Value { value: None }"
    );
    assert_eq!(
        response_debug_text(&Response::Element { json: "null".into() }),
        "Element { json: \"null\" }"
    );
}

#[test]
fn unexpected_responses_name_what_came() {
    match expect_tree(Response::Success) {
        Err(DriverError::CommandFailed(m)) => assert_eq!(m, "unexpected response: Ok"),
        other => panic!("expected CommandFailed, got {other:?}"),
    }
    match expect_ok(Response::Tree { json: "{}".into() }) {
        Err(DriverError::CommandFailed(m)) => {
            assert_eq!(m, "unexpected response: Tree { json: \"{}\" }")
        }
        other => panic!("expected CommandFailed, got {other:?}"),
    }
    assert_eq!(expect_value(Response::Value { value: None }).unwrap(), None);
}

fn report(bundle_id: &str) -> AgentTargetInfo {
    AgentTargetInfo {
        state: "running".into(),
        display_name: "Example".into(),
        version: "1.2.3".into(),
        build: "42".into(),
        bundle_id: bundle_id.into(),
    }
}

#[test]
fn target_info_keeps_the_reported_bundle_id() {
    let info = target_info(report("com.example.app"), Some("com.tracked.pkg".into()));
    assert_eq!(info.bundle_id, "com.example.app");
    assert_eq!(info.display_name, "Example");
    assert_eq!(info.version, "1.2.3");
    assert_eq!(info.build, "42");
    assert_eq!(info.state, "running");
}

#[test]
fn target_info_falls_back_to_the_session_bundle_id() {
    assert_eq!(target_info(report(""), Some("com.tracked.pkg".into())).bundle_id, "com.tracked.pkg");
    assert_eq!(target_info(report(""), None).bundle_id, "");
}
