//! iOS Simulator devices as `xcrun simctl` reports them: which one is
//! booted, the commands that act on them, and how their outcomes are read.
//!
//! Running `simctl` and reading its JSON listing is left to the caller.

use vstd::prelude::*;
use crate::android_lifecycle::strings_are;
use crate::io_error::io_error_text;
use crate::json_error::json_error_text;
use crate::text::{chars_eq, chars_of, contains, contains_chars, push_str, starts_with};

verus! {

/// Errors that can occur when interacting with simctl.
#[derive(Debug)]
pub enum SimctlError {
    /// A simctl command failed.
    CommandFailed(String),
    /// No simulator is in the "Booted" state.
    NoBootedSimulator,
    /// The JSON output of simctl could not be parsed.
    JsonParse(serde_json::Error),
    /// An I/O error occurred while executing the command.
    Io(std::io::Error),
}

/// The text of a simctl error; for a JSON or I/O error, the prefix before
/// the underlying error's own text.
pub open spec fn simctl_error_message(e: SimctlError) -> Seq<char> {
    match e {
        SimctlError::CommandFailed(m) => "Command execution failed: "@ + m@,
        SimctlError::NoBootedSimulator => "No booted simulator found"@,
        SimctlError::JsonParse(_) => "JSON parse error: "@,
        SimctlError::Io(_) => "IO error: "@,
    }
}

impl SimctlError {
    /// The human-readable description of the error.
    pub fn message(&self) -> (r: String)
        ensures
            starts_with(r@, simctl_error_message(*self)),
            (self is CommandFailed || self is NoBootedSimulator) ==> r@ == simctl_error_message(
                *self,
            ),
    {
        match self {
            SimctlError::CommandFailed(m) => {
                let mut s = String::from_str("Command execution failed: ");
                push_str(&mut s, m.as_str());
                assert(s@.subrange(0, s@.len() as int) =~= s@);
                s
            },
            SimctlError::NoBootedSimulator => {
                let s = String::from_str("No booted simulator found");
                assert(s@.subrange(0, s@.len() as int) =~= s@);
                s
            },
            SimctlError::JsonParse(e) => {
                let mut s = String::from_str("JSON parse error: ");
                let ghost pre = s@;
                let t = json_error_text(e);
                push_str(&mut s, t.as_str());
                assert(s@.subrange(0, pre.len() as int) =~= pre);
                s
            },
            SimctlError::Io(e) => {
                let mut s = String::from_str("IO error: ");
                let ghost pre = s@;
                let t = io_error_text(e);
                push_str(&mut s, t.as_str());
                assert(s@.subrange(0, pre.len() as int) =~= pre);
                s
            },
        }
    }
}

/// An iOS Simulator device, as `xcrun simctl list devices -j` reports it.
#[derive(Debug, Clone)]
pub struct SimulatorDevice {
    /// The unique device identifier (UDID).
    pub udid: String,
    /// The human-readable name of the device (e.g. "iPhone 15 Pro").
    pub name: String,
    /// The current state of the device (e.g. "Booted", "Shutdown").
    pub state: String,
    /// The device type identifier.
    pub device_type: Option<String>,
}

/// The device is booted.
pub open spec fn is_booted(d: SimulatorDevice) -> bool {
    d.state@ == "Booted"@
}

/// The position of the first booted device.
pub open spec fn first_booted(ds: Seq<SimulatorDevice>) -> Option<int>
    decreases ds.len(),
{
    if ds.len() == 0 {
        None
    } else if is_booted(ds.last()) {
        match first_booted(ds.drop_last()) {
            Some(i) => Some(i),
            None => Some(ds.len() - 1),
        }
    } else {
        first_booted(ds.drop_last())
    }
}

/// The booted device found is the first booted one in the list, and none
/// is found only when no device is booted.
pub proof fn lemma_first_booted(ds: Seq<SimulatorDevice>)
    ensures
        match first_booted(ds) {
            Some(i) => 0 <= i < ds.len() && is_booted(ds[i]) && forall|j: int|
                0 <= j < i ==> !is_booted(#[trigger] ds[j]),
            None => forall|j: int| 0 <= j < ds.len() ==> !is_booted(#[trigger] ds[j]),
        },
    decreases ds.len(),
{
    if ds.len() > 0 {
        lemma_first_booted(ds.drop_last());
        assert forall|j: int| 0 <= j < ds.len() - 1 implies ds.drop_last()[j] == ds[j] by {}
    }
}

fn booted_exec(d: &SimulatorDevice) -> (r: bool)
    ensures
        r == is_booted(*d),
{
    let a = chars_of(d.state.as_str());
    let b = chars_of("Booted");
    chars_eq(a.as_slice(), b.as_slice())
}

/// Wrapper for `xcrun simctl` operations.
pub struct Simctl;

impl Simctl {
    /// The first device in the "Booted" state.
    pub fn find_booted_device(devices: &[SimulatorDevice]) -> (r: Option<&SimulatorDevice>)
        ensures
            match first_booted(devices@) {
                Some(i) => r == Some(&devices@[i]),
                None => r is None,
            },
    {
        proof {
            lemma_first_booted(devices@);
        }
        let mut i: usize = 0;
        while i < devices.len()
            invariant
                i <= devices@.len(),
                forall|j: int| 0 <= j < i ==> !is_booted(#[trigger] devices@[j]),
            decreases devices@.len() - i,
        {
            if booted_exec(&devices[i]) {
                proof {
                    lemma_first_booted(devices@);
                    match first_booted(devices@) {
                        Some(k) => {
                            if k < i {
                                assert(!is_booted(devices@[k]));
                            }
                            if k > i {
                                assert(is_booted(devices@[i as int]));
                            }
                        },
                        None => {
                            assert(is_booted(devices@[i as int]));
                        },
                    }
                }
                return Some(&devices[i]);
            }
            i = i + 1;
        }
        proof {
            lemma_first_booted(devices@);
            match first_booted(devices@) {
                Some(k) => {
                    assert(!is_booted(devices@[k]));
                },
                None => {},
            }
        }
        None
    }

    /// The UDID of the first booted simulator among the listed devices.
    pub fn get_booted_udid(devices: &[SimulatorDevice]) -> (r: Result<String, SimctlError>)
        ensures
            match first_booted(devices@) {
                Some(i) => r matches Ok(u) && u@ == devices@[i].udid@,
                None => r matches Err(SimctlError::NoBootedSimulator),
            },
    {
        match Self::find_booted_device(devices) {
            Some(d) => Ok(d.udid.clone()),
            None => Err(SimctlError::NoBootedSimulator),
        }
    }

    /// The arguments of `xcrun` that list the devices as JSON.
    pub fn list_args() -> (r: Vec<String>)
        ensures
            strings_are(r@, seq!["simctl"@, "list"@, "devices"@, "-j"@]),
    {
        let mut r: Vec<String> = Vec::new();
        r.push(String::from_str("simctl"));
        r.push(String::from_str("list"));
        r.push(String::from_str("devices"));
        r.push(String::from_str("-j"));
        r
    }

    /// The arguments of `xcrun` that save a screenshot of `udid` to `path`.
    pub fn screenshot_args(udid: &str, path: &str) -> (r: Vec<String>)
        ensures
            strings_are(r@, seq!["simctl"@, "io"@, udid@, "screenshot"@, path@]),
    {
        let mut r: Vec<String> = Vec::new();
        r.push(String::from_str("simctl"));
        r.push(String::from_str("io"));
        r.push(udid.to_string());
        r.push(String::from_str("screenshot"));
        r.push(path.to_string());
        r
    }

    /// The temporary file a screenshot is saved to, named by a fresh UUID.
    pub fn screenshot_path(uuid: &str) -> (r: String)
        ensures
            r@ == "/tmp/qorvex_screenshot_"@ + uuid@ + ".png"@,
    {
        let mut s = String::from_str("/tmp/qorvex_screenshot_");
        push_str(&mut s, uuid);
        push_str(&mut s, ".png");
        s
    }

    /// The arguments of `xcrun` that boot `udid`.
    pub fn boot_args(udid: &str) -> (r: Vec<String>)
        ensures
            strings_are(r@, seq!["simctl"@, "boot"@, udid@]),
    {
        let mut r: Vec<String> = Vec::new();
        r.push(String::from_str("simctl"));
        r.push(String::from_str("boot"));
        r.push(udid.to_string());
        r
    }

    /// The outcome of a simctl command: success, or its error output.
    pub fn command_outcome(success: bool, stderr: String) -> (r: Result<(), SimctlError>)
        ensures
            success ==> r is Ok,
            !success ==> (r matches Err(SimctlError::CommandFailed(m)) && m == stderr),
    {
        if success {
            Ok(())
        } else {
            Err(SimctlError::CommandFailed(stderr))
        }
    }

    /// The outcome of a boot: a device that is already booted is no error.
    pub fn boot_outcome(success: bool, stderr: String) -> (r: Result<(), SimctlError>)
        ensures
            (success || contains(stderr@, "current state: Booted"@)) ==> r is Ok,
            !(success || contains(stderr@, "current state: Booted"@)) ==> (r matches Err(
                SimctlError::CommandFailed(m),
            ) && m == stderr),
    {
        if success {
            return Ok(());
        }
        let s = chars_of(stderr.as_str());
        let needle = chars_of("current state: Booted");
        if contains_chars(s.as_slice(), needle.as_slice()) {
            Ok(())
        } else {
            Err(SimctlError::CommandFailed(stderr))
        }
    }
}

} // verus!
