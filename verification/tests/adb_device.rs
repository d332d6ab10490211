use qorvex_core::adb_device::{Adb, AdbError, DeviceKind};

const SAMPLE_DEVICES: &str = "List of devices attached\n\
emulator-5554          device product:sdk_gphone64_arm64 model:sdk_gphone64_arm64 device:emu64a transport_id:1\n\
1A2B3C4D5E6F           device product:redfin model:Pixel_5 device:redfin transport_id:2\n\
192.168.1.42:5555      device product:lineage_oriole model:Pixel_6_Pro device:oriole transport_id:3\n\
emulator-5556          offline\n";

#[test]
fn test_parse_devices_counts_and_serials() {
    let devices = Adb::parse_devices(SAMPLE_DEVICES);
    assert_eq!(devices.len(), 4);
    let serials: Vec<&str> = devices.iter().map(|d| d.serial.as_str()).collect();
    assert!(serials.contains(&"emulator-5554"));
    assert!(serials.contains(&"1A2B3C4D5E6F"));
    assert!(serials.contains(&"192.168.1.42:5555"));
    assert!(serials.contains(&"emulator-5556"));
}

#[test]
fn test_parse_devices_classifies_kinds() {
    let devices = Adb::parse_devices(SAMPLE_DEVICES);
    let by_serial = |s: &str| devices.iter().find(|d| d.serial == s).unwrap();
    assert_eq!(by_serial("emulator-5554").kind, DeviceKind::Emulator);
    assert_eq!(by_serial("1A2B3C4D5E6F").kind, DeviceKind::Physical);
    assert_eq!(by_serial("192.168.1.42:5555").kind, DeviceKind::Network);
    assert_eq!(by_serial("emulator-5556").kind, DeviceKind::Emulator);
}

#[test]
fn test_parse_devices_attributes() {
    let devices = Adb::parse_devices(SAMPLE_DEVICES);
    let phys = devices.iter().find(|d| d.serial == "1A2B3C4D5E6F").unwrap();
    assert_eq!(phys.state, "device");
    assert_eq!(phys.model.as_deref(), Some("Pixel_5"));
    assert_eq!(phys.product.as_deref(), Some("redfin"));
    assert_eq!(phys.device.as_deref(), Some("redfin"));
    assert_eq!(phys.transport_id.as_deref(), Some("2"));
    assert!(phys.is_ready());
}

#[test]
fn test_parse_devices_offline_not_ready() {
    let devices = Adb::parse_devices(SAMPLE_DEVICES);
    let offline = devices.iter().find(|d| d.serial == "emulator-5556").unwrap();
    assert_eq!(offline.state, "offline");
    assert!(!offline.is_ready());
    assert!(offline.model.is_none());
    assert!(offline.transport_id.is_none());
}

#[test]
fn test_parse_devices_empty() {
    let devices = Adb::parse_devices("List of devices attached\n\n");
    assert!(devices.is_empty());
}

#[test]
fn test_parse_devices_skips_daemon_lines() {
    let output = "* daemon not running; starting now at tcp:5037\n\
* daemon started successfully\n\
List of devices attached\n\
emulator-5554 device\n";
    let devices = Adb::parse_devices(output);
    assert_eq!(devices.len(), 1);
    assert_eq!(devices[0].serial, "emulator-5554");
}

#[test]
fn parse_devices_handles_crlf_and_single_word_lines() {
    let output = "List of devices attached\r\nemulator-5554\tdevice model:A model:B\r\nlonely\r\n";
    let devices = Adb::parse_devices(output);
    assert_eq!(devices.len(), 1);
    assert_eq!(devices[0].state, "device");
    assert_eq!(devices[0].model.as_deref(), Some("B"));
}

#[test]
fn test_classify_serial() {
    assert_eq!(Adb::classify_serial("emulator-5554"), DeviceKind::Emulator);
    assert_eq!(Adb::classify_serial("192.168.1.42:5555"), DeviceKind::Network);
    assert_eq!(Adb::classify_serial("myhost.local:5555"), DeviceKind::Network);
    assert_eq!(Adb::classify_serial("1A2B3C4D5E6F"), DeviceKind::Physical);
    assert_eq!(Adb::classify_serial("ABC:notaport"), DeviceKind::Physical);
}

#[test]
fn test_parse_avds() {
    let output = "Pixel_7_API_34\nPixel_Tablet_API_33\nMedium_Phone_API_35\n";
    let avds = Adb::parse_avds(output);
    assert_eq!(avds.len(), 3);
    assert_eq!(avds[0].name, "Pixel_7_API_34");
    assert_eq!(avds[2].name, "Medium_Phone_API_35");
}

#[test]
fn test_parse_avds_skips_info_lines() {
    let output = "INFO    | Storing crashdata in: /tmp/foo\nPixel_7_API_34\n";
    let avds = Adb::parse_avds(output);
    assert_eq!(avds.len(), 1);
    assert_eq!(avds[0].name, "Pixel_7_API_34");
}

#[test]
fn test_parse_avds_empty() {
    assert!(Adb::parse_avds("").is_empty());
}

#[test]
fn test_connect_succeeded() {
    assert!(Adb::connect_succeeded("connected to 192.168.1.42:5555"));
    assert!(Adb::connect_succeeded("already connected to 192.168.1.42:5555"));
    assert!(!Adb::connect_succeeded("failed to connect to 192.168.1.42:5555"));
    assert!(!Adb::connect_succeeded("cannot connect to 192.168.1.42:5555: Connection refused"));
}

#[test]
fn test_adb_error_display() {
    let cmd_err = AdbError::CommandFailed("boom".to_string());
    assert!(cmd_err.message().contains("boom"));
    let not_found = AdbError::DeviceNotFound("emulator-5554".to_string());
    assert!(not_found.message().contains("emulator-5554"));
    let timeout = AdbError::BootTimeout("slow".to_string());
    assert!(timeout.message().contains("slow"));
}

fn dev(serial: &str, state: &str) -> qorvex_core::adb_device::AndroidDevice {
    qorvex_core::adb_device::AndroidDevice {
        serial: serial.to_string(),
        state: state.to_string(),
        kind: Adb::classify_serial(serial),
        model: None,
        product: None,
        device: None,
        transport_id: None,
    }
}

#[test]
fn new_emulator_is_ready_and_unseen() {
    let before = vec!["emulator-5554".to_string()];
    let now = vec![
        dev("emulator-5554", "device"),
        dev("emulator-5556", "offline"),
        dev("1A2B3C", "device"),
        dev("emulator-5558", "device"),
    ];
    assert_eq!(Adb::new_emulator(&before, &now), Some("emulator-5558".to_string()));
    assert_eq!(Adb::new_emulator(&before, &now[..3]), None);
    assert_eq!(Adb::emulator_serials(&now), vec!["emulator-5554", "emulator-5556", "emulator-5558"]);
}

#[test]
fn adb_command_outcomes() {
    assert!(Adb::connect_outcome(true, "connected to 1.2.3.4:5555\n", "").is_ok());
    match Adb::connect_outcome(true, "failed to connect\n", " err ") {
        Err(AdbError::CommandFailed(m)) => assert_eq!(m, "failed to connecterr"),
        other => panic!("expected CommandFailed, got {other:?}"),
    }
    assert!(Adb::install_outcome(true, "Success\n", "").is_ok());
    assert!(Adb::install_outcome(true, "Failure [X]\n", "").is_err());
    assert!(Adb::boot_completed(true, "1\n"));
    assert!(!Adb::boot_completed(true, "0\n"));
    assert!(!Adb::boot_completed(false, "1"));
    assert!(Adb::screencap_outcome(true, vec![], "e".into()).is_err());
    assert_eq!(Adb::screencap_outcome(true, vec![7], String::new()).unwrap(), vec![7]);
    match Adb::boot_timeout_error("Pixel_7", "30s") {
        AdbError::BootTimeout(m) => assert_eq!(m, "emulator 'Pixel_7' did not appear/boot within 30s"),
        other => panic!("unexpected {other:?}"),
    }
}
