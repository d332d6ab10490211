use qorvex_core::core_device_tunnel::{
    coredevice_lookup_host, find_pairing_file, find_pairing_file_given, pairing_file_candidates,
    CoreDeviceTunnelError,
};

#[test]
fn find_pairing_file_returns_none_for_unknown_udid() {
    assert!(find_pairing_file(Some("/nonexistent-home"), "00000000-0000000000000000").is_none());
}

#[test]
fn error_display_pairing_file_not_found() {
    let err = CoreDeviceTunnelError::PairingFileNotFound("MYUDID".into());
    assert!(err.message().contains("MYUDID"));
}

#[test]
fn error_display_address_resolution() {
    let err = CoreDeviceTunnelError::AddressResolution("MYUDID".into());
    assert!(err.message().contains("MYUDID"));
}

#[test]
fn error_display_proxy_connection() {
    let err = CoreDeviceTunnelError::ProxyConnection("timeout".into());
    assert!(err.message().contains("CoreDeviceProxy"));
    assert!(err.message().contains("timeout"));
}

#[test]
fn error_display_tunnel_creation() {
    let err = CoreDeviceTunnelError::TunnelCreation("ip parse error".into());
    assert!(err.message().contains("tunnel"));
}

#[test]
fn error_display_agent_connection() {
    let err = CoreDeviceTunnelError::AgentConnection(std::io::Error::new(
        std::io::ErrorKind::ConnectionRefused,
        "refused",
    ));
    assert!(err.message().contains("agent port"));
}

#[test]
fn pairing_records_are_looked_for_in_order() {
    assert_eq!(
        pairing_file_candidates(Some("/Users/me"), "U1"),
        vec![
            "/Users/me/Library/Lockdown/PairRecords/U1.plist",
            "/var/db/lockdown/U1.plist",
        ]
    );
    assert_eq!(pairing_file_candidates(None, "U1"), vec!["/var/db/lockdown/U1.plist"]);
    assert_eq!(coredevice_lookup_host("U1"), "U1.coredevice.local:62078");
}

#[test]
fn pairing_file_prefers_user_record() {
    assert_eq!(
        find_pairing_file_given(Some("/Users/me"), "U1", true, true),
        Some("/Users/me/Library/Lockdown/PairRecords/U1.plist".to_string())
    );
}

#[test]
fn pairing_file_falls_back_to_system_record() {
    assert_eq!(
        find_pairing_file_given(Some("/Users/me"), "U1", false, true),
        Some("/var/db/lockdown/U1.plist".to_string())
    );
    assert_eq!(
        find_pairing_file_given(None, "U1", true, true),
        Some("/var/db/lockdown/U1.plist".to_string())
    );
}

#[test]
fn pairing_file_none_when_nothing_exists() {
    assert_eq!(find_pairing_file_given(Some("/Users/me"), "U1", false, false), None);
    assert_eq!(find_pairing_file_given(None, "U1", false, false), None);
}
