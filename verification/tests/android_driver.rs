use qorvex_core::adb_forward::AdbForwardError;
use qorvex_core::agent_client::AgentClientError;
use qorvex_core::agent_session::{expect_ok, is_connection_error, map_client_error};
use qorvex_core::android_driver::{map_forward_error, DEFAULT_ANDROID_AGENT_PORT};
use qorvex_core::driver::DriverError;
use qorvex_core::protocol::Response;

#[test]
fn map_client_error_variants() {
    assert!(matches!(
        map_client_error(AgentClientError::NotConnected),
        DriverError::NotConnected
    ));
    assert!(matches!(map_client_error(AgentClientError::Timeout), DriverError::Timeout));
    match map_client_error(AgentClientError::AgentError("element not found".into())) {
        DriverError::CommandFailed(m) => assert_eq!(m, "element not found"),
        other => panic!("expected CommandFailed, got {other:?}"),
    }
    match map_client_error(AgentClientError::ConnectionFailed("refused".into())) {
        DriverError::ConnectionLost(m) => assert_eq!(m, "refused"),
        other => panic!("expected ConnectionLost, got {other:?}"),
    }
}

#[test]
fn map_forward_error_is_connection_lost() {
    let err = map_forward_error(AdbForwardError::ForwardFailed("device offline".into()));
    match &err {
        DriverError::ConnectionLost(m) => assert!(m.contains("device offline")),
        other => panic!("expected ConnectionLost, got {other:?}"),
    }
    assert!(is_connection_error(&err));
}

#[test]
fn is_connection_error_classifier() {
    assert!(is_connection_error(&DriverError::NotConnected));
    assert!(is_connection_error(&DriverError::ConnectionLost("x".into())));
    assert!(is_connection_error(&DriverError::Timeout));
    assert!(is_connection_error(&DriverError::Io(std::io::Error::new(
        std::io::ErrorKind::BrokenPipe,
        "broken"
    ))));
    assert!(!is_connection_error(&DriverError::CommandFailed("not found".into())));
    assert!(!is_connection_error(&DriverError::JsonParse("bad".into())));
}

#[test]
fn expect_ok_ok() {
    assert!(expect_ok(Response::Success).is_ok());
}

#[test]
fn expect_ok_non_ok() {
    match expect_ok(Response::Value { value: None }) {
        Err(DriverError::CommandFailed(m)) => assert!(m.contains("unexpected response")),
        other => panic!("expected CommandFailed, got {other:?}"),
    }
}

#[test]
fn default_android_port_is_8080() {
    assert_eq!(DEFAULT_ANDROID_AGENT_PORT, 8080);
}
