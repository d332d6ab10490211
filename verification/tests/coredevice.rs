use qorvex_core::coredevice::{
    device_info, extract_traditional_udid, is_uuid_format, model_description, paired_devices,
    CoreDeviceError, RawDevice,
};

fn raw(paired: &str, hostnames: &[&str], marketing: Option<&str>) -> RawDevice {
    RawDevice {
        identifier: "44E36C64-57C2-5D8B-B934-199A60F6F809".to_string(),
        pairing_state: Some(paired.to_string()),
        transport_type: Some("localNetwork".to_string()),
        potential_hostnames: hostnames.iter().map(|s| s.to_string()).collect(),
        developer_mode_status: Some("enabled".to_string()),
        name: Some("Hillbilly".to_string()),
        os_version_number: Some("26.4".to_string()),
        product_type: Some("iPhone17,2".to_string()),
        device_type: Some("iPhone".to_string()),
        marketing_name: marketing.map(|s| s.to_string()),
    }
}

#[test]
fn is_uuid_format_works() {
    assert!(is_uuid_format("44E36C64-57C2-5D8B-B934-199A60F6F809"));
    assert!(!is_uuid_format("00008140-000A15911AE3001C"));
    assert!(!is_uuid_format("Hillbilly"));
    assert!(!is_uuid_format(""));
}

#[test]
fn parse_sample_device() {
    let r = raw(
        "paired",
        &[
            "Hillbilly.coredevice.local",
            "44E36C64-57C2-5D8B-B934-199A60F6F809.coredevice.local",
            "00008140-000A15911AE3001C.coredevice.local",
        ],
        None,
    );
    let d = device_info(&r).unwrap();
    assert_eq!(d.identifier, "44E36C64-57C2-5D8B-B934-199A60F6F809");
    assert_eq!(d.udid.as_deref(), Some("00008140-000A15911AE3001C"));
    assert_eq!(d.name, "Hillbilly");
    assert_eq!(d.hostname.as_deref(), Some("Hillbilly.local"));
    assert_eq!(d.model, "iPhone (iPhone17,2)");
    assert_eq!(d.os_version, "26.4");
    assert_eq!(d.transport_type, "localNetwork");
    assert!(d.is_paired);
    assert!(d.developer_mode);
}

#[test]
fn unpaired_devices_are_excluded() {
    let devices = paired_devices(&[raw("unpaired", &[], None), raw("paired", &[], None)]);
    assert_eq!(devices.len(), 1);
    assert!(paired_devices(&[raw("unpaired", &[], None)]).is_empty());
    assert!(paired_devices(&[]).is_empty());
}

#[test]
fn udid_none_when_no_hostnames() {
    let d = device_info(&raw("paired", &[], None)).unwrap();
    assert!(d.udid.is_none());
}

#[test]
fn marketing_name_preferred_over_product_type() {
    let r = raw("paired", &[], Some("iPhone 16 Pro Max"));
    assert_eq!(model_description(&r), "iPhone 16 Pro Max");
    let mut r = raw("paired", &[], None);
    r.device_type = None;
    assert_eq!(model_description(&r), "iPhone17,2");
    r.product_type = None;
    assert_eq!(model_description(&r), "Unknown");
}

#[test]
fn udid_skips_name_and_id_ignoring_case() {
    let hosts = vec![
        "hillbilly.coredevice.local".to_string(),
        "44e36c64-57c2-5d8b-b934-199a60f6f809.coredevice.local".to_string(),
        "00008140-000A15911AE3001C".to_string(),
    ];
    assert_eq!(
        extract_traditional_udid(&hosts, "44E36C64-57C2-5D8B-B934-199A60F6F809", "Hillbilly"),
        Some("00008140-000A15911AE3001C".to_string())
    );
}

#[test]
fn core_device_error_messages() {
    assert_eq!(
        CoreDeviceError::NotAvailable("x".into()).message(),
        "devicectl not available: x"
    );
    assert_eq!(
        CoreDeviceError::ParseError("y".into()).message(),
        "failed to parse devicectl output: y"
    );
    assert_eq!(
        CoreDeviceError::CommandFailed("z".into()).message(),
        "devicectl command failed: z"
    );
}
