use qorvex_core::simctl::{Simctl, SimctlError, SimulatorDevice};

fn device(udid: &str, state: &str) -> SimulatorDevice {
    SimulatorDevice {
        udid: udid.to_string(),
        name: "iPhone 15 Pro".to_string(),
        state: state.to_string(),
        device_type: None,
    }
}

#[test]
fn test_find_booted_device_empty_list() {
    let devices: Vec<SimulatorDevice> = vec![];
    let booted = Simctl::find_booted_device(&devices);
    assert!(booted.is_none());
}

#[test]
fn test_find_booted_device_found() {
    let devices = vec![device("A", "Shutdown"), device("B", "Booted"), device("C", "Booted")];
    let booted = Simctl::find_booted_device(&devices).unwrap();
    assert_eq!(booted.udid, "B");
    assert_eq!(Simctl::get_booted_udid(&devices).unwrap(), "B");
}

#[test]
fn test_find_booted_device_none_booted() {
    let devices = vec![device("A", "Shutdown"), device("B", "booted")];
    assert!(Simctl::find_booted_device(&devices).is_none());
    assert!(matches!(
        Simctl::get_booted_udid(&devices),
        Err(SimctlError::NoBootedSimulator)
    ));
}

#[test]
fn test_simctl_error_display() {
    let err = SimctlError::CommandFailed("test error".to_string());
    assert_eq!(err.message(), "Command execution failed: test error");
    let err = SimctlError::NoBootedSimulator;
    assert_eq!(err.message(), "No booted simulator found");
}

#[test]
fn boot_of_booted_device_is_no_error() {
    assert!(Simctl::boot_outcome(false, "Unable to boot device in current state: Booted".into())
        .is_ok());
    assert!(matches!(
        Simctl::boot_outcome(false, "Invalid device".into()),
        Err(SimctlError::CommandFailed(m)) if m == "Invalid device"
    ));
    assert_eq!(Simctl::boot_args("U"), vec!["simctl", "boot", "U"]);
    assert_eq!(Simctl::screenshot_path("1234"), "/tmp/qorvex_screenshot_1234.png");
}
