use qorvex_core::adb_forward::{AdbForward, AdbForwardError};

#[test]
fn error_display_mirrors_usb_tunnel_style() {
    let err = AdbForwardError::AdbUnavailable("not found".into());
    assert!(err.message().contains("adb"));

    let err = AdbForwardError::ForwardFailed("device offline".into());
    assert!(err.message().contains("device offline"));

    let err = AdbForwardError::NoLocalPort;
    assert!(err.message().contains("no local port"));

    let err = AdbForwardError::RemoveFailed("rule not found".into());
    assert!(err.message().contains("rule not found"));
}

#[test]
fn parse_assigned_port_reads_bare_number() {
    assert_eq!(AdbForward::parse_assigned_port("43217\n"), Some(43217));
    assert_eq!(AdbForward::parse_assigned_port("  5037 "), Some(5037));
}

#[test]
fn parse_assigned_port_none_when_absent() {
    assert_eq!(AdbForward::parse_assigned_port(""), None);
    assert_eq!(AdbForward::parse_assigned_port("\n"), None);
}

#[test]
fn parse_assigned_port_rejects_out_of_range() {
    assert_eq!(AdbForward::parse_assigned_port("70000"), None);
}

#[test]
fn local_addr_is_loopback_with_bound_port() {
    let forward =
        AdbForward::establish_outcome("emulator-5554", Some(43217), 8080, true, "", "").unwrap();
    assert_eq!(forward.local_addr(), "127.0.0.1:43217");
    assert_eq!(forward.local_port(), 43217);
    assert_eq!(forward.device_port(), 8080);
    assert_eq!(forward.serial(), "emulator-5554");
}

#[test]
fn remove_is_idempotent_once_removed() {
    let mut forward =
        AdbForward::establish_outcome("emulator-5554", Some(43217), 8080, true, "", "").unwrap();
    assert!(forward.remove_args().is_some());
    assert!(forward.remove_outcome(true, "").is_ok());
    assert!(forward.is_removed());
    // Once removed, there is nothing left to run.
    assert!(forward.remove_args().is_none());
}

#[test]
fn parse_forward_list_extracts_rules() {
    let output = "emulator-5554 tcp:43217 tcp:8080\n\
192.168.1.42:5555 tcp:43218 tcp:8080\n";
    let rules = AdbForward::parse_forward_list(output);
    assert_eq!(rules.len(), 2);
    assert_eq!(
        rules[0],
        ("emulator-5554".into(), "tcp:43217".into(), "tcp:8080".into())
    );
    assert_eq!(rules[1].0, "192.168.1.42:5555");
}

#[test]
fn parse_forward_list_no_orphans_after_remove() {
    let before = "emulator-5554 tcp:43217 tcp:8080\n";
    let after = "";
    assert_eq!(AdbForward::parse_forward_list(before).len(), 1);
    let remaining = AdbForward::parse_forward_list(after);
    assert!(!remaining.iter().any(|(_, local, _)| local == "tcp:43217"));
}

#[test]
fn parse_forward_list_empty() {
    assert!(AdbForward::parse_forward_list("").is_empty());
    assert!(AdbForward::parse_forward_list("\n\n").is_empty());
}

#[test]
fn establish_args_request_automatic_port() {
    let args = AdbForward::establish_args("emulator-5554", None, 8080);
    assert_eq!(args, vec!["-s", "emulator-5554", "forward", "tcp:0", "tcp:8080"]);
}

#[test]
fn establish_outcome_reads_assigned_port() {
    let f = AdbForward::establish_outcome("emulator-5554", None, 8080, true, "43217\n", "")
        .unwrap();
    assert_eq!(f.local_port(), 43217);
    match AdbForward::establish_outcome("emulator-5554", None, 8080, true, "", "") {
        Err(AdbForwardError::NoLocalPort) => {}
        other => panic!("expected NoLocalPort, got {other:?}"),
    }
    match AdbForward::establish_outcome("x", Some(1), 8080, false, "", "  device offline \n") {
        Err(AdbForwardError::ForwardFailed(m)) => assert_eq!(m, "device offline"),
        other => panic!("expected ForwardFailed, got {other:?}"),
    }
}
