use qorvex_core::agent_client::{read_reply, AgentClientError};
use qorvex_core::agent_driver::{recovery_failure, ConnectionTarget, RecoveryStage};
use qorvex_core::agent_lifecycle::AgentLifecycleError;
use qorvex_core::agent_session::{
    expect_element, expect_ok, expect_screenshot, expect_tree, expect_value, is_connection_error,
    map_client_error, read_deadline_ms, should_recover,
};
use qorvex_core::driver::DriverError;
use qorvex_core::protocol::{encode_response, ProtocolError, Response};

#[test]
fn map_not_connected() {
    let err = map_client_error(AgentClientError::NotConnected);
    assert!(matches!(err, DriverError::NotConnected));
}

#[test]
fn map_connection_failed() {
    let err = map_client_error(AgentClientError::ConnectionFailed("refused".to_string()));
    match err {
        DriverError::ConnectionLost(msg) => assert_eq!(msg, "refused"),
        other => panic!("expected ConnectionLost, got: {other:?}"),
    }
}

#[test]
fn map_io_error() {
    let io_err = std::io::Error::new(std::io::ErrorKind::BrokenPipe, "broken");
    let err = map_client_error(AgentClientError::Io(io_err));
    match err {
        DriverError::Io(e) => assert_eq!(e.kind(), std::io::ErrorKind::BrokenPipe),
        other => panic!("expected Io, got: {other:?}"),
    }
}

#[test]
fn map_protocol_error() {
    let err = map_client_error(AgentClientError::Protocol(ProtocolError::InvalidOpCode(0xFF)));
    match err {
        DriverError::CommandFailed(msg) => assert!(msg.contains("0xFF")),
        other => panic!("expected CommandFailed, got: {other:?}"),
    }
}

#[test]
fn map_agent_error() {
    let err = map_client_error(AgentClientError::AgentError("element not found".to_string()));
    match err {
        DriverError::CommandFailed(msg) => assert_eq!(msg, "element not found"),
        other => panic!("expected CommandFailed, got: {other:?}"),
    }
}

#[test]
fn map_timeout() {
    let err = map_client_error(AgentClientError::Timeout);
    assert!(matches!(err, DriverError::Timeout));
}

#[test]
fn expect_ok_with_ok_response() {
    assert!(expect_ok(Response::Success).is_ok());
}

#[test]
fn expect_ok_with_tree_response() {
    let result = expect_ok(Response::Tree { json: "[]".to_string() });
    match result {
        Err(DriverError::CommandFailed(msg)) => {
            assert!(msg.contains("unexpected response"));
        }
        other => panic!("expected CommandFailed, got: {other:?}"),
    }
}

#[test]
fn expect_ok_with_value_response() {
    let result = expect_ok(Response::Value { value: None });
    match result {
        Err(DriverError::CommandFailed(msg)) => {
            assert!(msg.contains("unexpected response"));
        }
        other => panic!("expected CommandFailed, got: {other:?}"),
    }
}

#[test]
fn expect_ok_with_screenshot_response() {
    let result = expect_ok(Response::Screenshot { data: vec![] });
    match result {
        Err(DriverError::CommandFailed(msg)) => {
            assert!(msg.contains("unexpected response"));
        }
        other => panic!("expected CommandFailed, got: {other:?}"),
    }
}

#[test]
fn test_is_connection_error_classifier() {
    assert!(is_connection_error(&DriverError::NotConnected));
    assert!(is_connection_error(&DriverError::ConnectionLost("reset".to_string())));
    assert!(is_connection_error(&DriverError::Io(std::io::Error::new(
        std::io::ErrorKind::BrokenPipe,
        "broken"
    ))));
    assert!(is_connection_error(&DriverError::Timeout));
    assert!(!is_connection_error(&DriverError::CommandFailed("element not found".to_string())));
    assert!(!is_connection_error(&DriverError::JsonParse("bad json".to_string())));
}

#[test]
fn recovery_only_for_connection_errors_when_enabled() {
    assert!(should_recover(&DriverError::Timeout, true));
    assert!(!should_recover(&DriverError::Timeout, false));
    assert!(!should_recover(&DriverError::CommandFailed("x".into()), true));
}

#[test]
fn response_kinds_are_unwrapped() {
    assert_eq!(expect_tree(Response::Tree { json: "[1]".into() }).unwrap(), "[1]");
    assert_eq!(
        expect_value(Response::Value { value: Some("v".into()) }).unwrap(),
        Some("v".to_string())
    );
    assert_eq!(expect_screenshot(Response::Screenshot { data: vec![1, 2] }).unwrap(), vec![1, 2]);
    assert_eq!(expect_element(Response::Element { json: "null".into() }).unwrap(), "null");
    assert!(expect_tree(Response::Success).is_err());
    assert!(expect_value(Response::Tree { json: "[]".into() }).is_err());
}

#[test]
fn read_deadline_adds_padding() {
    assert_eq!(read_deadline_ms(5000), 20000);
}

#[test]
fn reply_error_becomes_agent_error() {
    let frame = encode_response(&Response::Error { message: "boom".into() });
    match read_reply(&frame[4..]) {
        Err(AgentClientError::AgentError(m)) => assert_eq!(m, "boom"),
        other => panic!("expected AgentError, got {other:?}"),
    }
    let frame = encode_response(&Response::Value { value: Some("x".into()) });
    match read_reply(&frame[4..]) {
        Ok(Response::Value { value }) => assert_eq!(value, Some("x".to_string())),
        other => panic!("expected Value, got {other:?}"),
    }
    match read_reply(&[0xEE]) {
        Err(AgentClientError::Protocol(ProtocolError::InvalidOpCode(0xEE))) => {}
        other => panic!("expected InvalidOpCode, got {other:?}"),
    }
}

#[test]
fn agent_client_error_messages() {
    assert_eq!(AgentClientError::NotConnected.message(), "not connected to agent");
    assert_eq!(AgentClientError::ConnectionFailed("x".into()).message(), "connection failed: x");
    assert_eq!(AgentClientError::AgentError("y".into()).message(), "agent error: y");
    assert_eq!(AgentClientError::Timeout.message(), "operation timed out");
    assert_eq!(
        AgentClientError::Protocol(ProtocolError::InsufficientData).message(),
        "protocol error: insufficient data in buffer"
    );
}

#[test]
fn connection_target_host_and_port() {
    let t = ConnectionTarget::UsbDevice { udid: "ABC-123".into(), device_port: 8080 };
    assert_eq!(t.host(), "ABC-123");
    assert_eq!(t.port(), 8080);
    let t = ConnectionTarget::Direct { host: "localhost".into(), port: 9800 };
    assert_eq!(t.host(), "localhost");
    assert_eq!(t.port(), 9800);
    let t = ConnectionTarget::Tunneld { tunnel_address: "fd00::1".into(), agent_port: 8081 };
    assert_eq!(t.host(), "fd00::1");
    assert_eq!(t.port(), 8081);
    let t = ConnectionTarget::CoreDevice { udid: "U".into(), port: 1 };
    assert_eq!(t.host(), "U");
    assert_eq!(t.port(), 1);
}

#[test]
fn recovery_failure_names_the_step() {
    match recovery_failure(RecoveryStage::Spawn, &AgentLifecycleError::LaunchFailed("no".into())) {
        DriverError::CommandFailed(m) => {
            assert_eq!(m, "recovery: spawn failed: Failed to launch agent: no")
        }
        other => panic!("expected CommandFailed, got {other:?}"),
    }
}
