//! The native CoreDevice tunnel to iOS 17+ devices: its errors, where a
//! device's pairing record is looked for, and the host name that resolves
//! to the device.
//!
//! Resolving the host, connecting the proxy and opening the tunnel are left
//! to the caller.

use vstd::prelude::*;
use crate::config::path_exists;
use crate::io_error::io_error_text;
use crate::text::{join_path, join_path_exec, push_str, starts_with};

verus! {

/// `idevice::IdeviceError`, carried opaquely.
#[verifier::external_type_specification]
#[verifier::external_body]
pub struct ExIdeviceError(idevice::IdeviceError);

/// The text of a device error (`<idevice::IdeviceError as Display>::fmt`).
///
/// Nothing is stated of the text: it is written by the `idevice` crate.
#[verifier::external_body]
pub(crate) fn idevice_error_text(e: &idevice::IdeviceError) -> String {
    e.to_string()
}

/// Errors that can occur while setting up a CoreDevice tunnel.
#[derive(Debug)]
pub enum CoreDeviceTunnelError {
    /// No pairing record was found for the device.
    PairingFileNotFound(String),
    /// The pairing record could not be read.
    PairingFileRead(idevice::IdeviceError),
    /// The device's address could not be resolved.
    AddressResolution(String),
    /// Connecting the CoreDeviceProxy failed.
    ProxyConnection(String),
    /// Creating the software tunnel failed.
    TunnelCreation(String),
    /// Connecting to the agent port inside the tunnel failed.
    AgentConnection(std::io::Error),
}

/// The text of a tunnel error; for a read or connection error, the prefix
/// before the underlying error's own text.
pub open spec fn core_device_tunnel_error_message(e: CoreDeviceTunnelError) -> Seq<char> {
    match e {
        CoreDeviceTunnelError::PairingFileNotFound(u) => "pairing file not found for device "@ + u@,
        CoreDeviceTunnelError::PairingFileRead(_) => "failed to read pairing file: "@,
        CoreDeviceTunnelError::AddressResolution(u) => "failed to resolve device address for "@
            + u@,
        CoreDeviceTunnelError::ProxyConnection(m) => "CoreDeviceProxy connection failed: "@ + m@,
        CoreDeviceTunnelError::TunnelCreation(m) => "software tunnel creation failed: "@ + m@,
        CoreDeviceTunnelError::AgentConnection(_) => "TCP connection to agent port failed: "@,
    }
}

impl CoreDeviceTunnelError {
    /// The human-readable description of the error.
    pub fn message(&self) -> (r: String)
        ensures
            starts_with(r@, core_device_tunnel_error_message(*self)),
            !(self is PairingFileRead || self is AgentConnection) ==> r@
                == core_device_tunnel_error_message(*self),
    {
        match self {
            CoreDeviceTunnelError::PairingFileNotFound(u) => prefixed(
                "pairing file not found for device ",
                u.as_str(),
            ),
            CoreDeviceTunnelError::PairingFileRead(e) => {
                let t = idevice_error_text(e);
                let s = prefixed("failed to read pairing file: ", t.as_str());
                assert(s@.subrange(0, "failed to read pairing file: "@.len() as int)
                    =~= "failed to read pairing file: "@);
                s
            },
            CoreDeviceTunnelError::AddressResolution(u) => prefixed(
                "failed to resolve device address for ",
                u.as_str(),
            ),
            CoreDeviceTunnelError::ProxyConnection(m) => prefixed(
                "CoreDeviceProxy connection failed: ",
                m.as_str(),
            ),
            CoreDeviceTunnelError::TunnelCreation(m) => prefixed(
                "software tunnel creation failed: ",
                m.as_str(),
            ),
            CoreDeviceTunnelError::AgentConnection(e) => {
                let t = io_error_text(e);
                let s = prefixed("TCP connection to agent port failed: ", t.as_str());
                assert(s@.subrange(0, "TCP connection to agent port failed: "@.len() as int)
                    =~= "TCP connection to agent port failed: "@);
                s
            },
        }
    }
}

fn prefixed(prefix: &str, tail: &str) -> (r: String)
    ensures
        r@ == prefix@ + tail@,
        starts_with(r@, prefix@),
        starts_with(r@, r@),
{
    let mut s = prefix.to_string();
    push_str(&mut s, tail);
    assert(s@.subrange(0, prefix@.len() as int) =~= prefix@);
    assert(s@.subrange(0, s@.len() as int) =~= s@);
    s
}

/// The pairing record of a device in the user's lockdown directory.
pub open spec fn user_pairing_path(home: Seq<char>, udid: Seq<char>) -> Seq<char> {
    join_path(
        join_path(join_path(join_path(home, "Library"@), "Lockdown"@), "PairRecords"@),
        udid + ".plist"@,
    )
}

/// The pairing record of a device in the system's lockdown directory.
pub open spec fn system_pairing_path(udid: Seq<char>) -> Seq<char> {
    "/var/db/lockdown/"@ + udid + ".plist"@
}

/// The places a device's pairing record is looked for, in order: the
/// user's lockdown directory (when the home directory is known), then the
/// system's.
pub fn pairing_file_candidates(home: Option<&str>, udid: &str) -> (r: Vec<String>)
    ensures
        match home {
            Some(h) => r@.len() == 2 && r@[0]@ == user_pairing_path(h@, udid@) && r@[1]@
                == system_pairing_path(udid@),
            None => r@.len() == 1 && r@[0]@ == system_pairing_path(udid@),
        },
{
    let mut file = udid.to_string();
    push_str(&mut file, ".plist");
    let mut r: Vec<String> = Vec::new();
    if let Some(h) = home {
        let a = join_path_exec(h, "Library");
        let b = join_path_exec(a.as_str(), "Lockdown");
        let c = join_path_exec(b.as_str(), "PairRecords");
        r.push(join_path_exec(c.as_str(), file.as_str()));
    }
    let mut sys = String::from_str("/var/db/lockdown/");
    push_str(&mut sys, file.as_str());
    r.push(sys);
    r
}

/// The home directory's characters, when it is known.
pub open spec fn opt_str_chars(o: Option<&str>) -> Option<Seq<char>> {
    match o {
        Some(s) => Some(s@),
        None => None,
    }
}

/// The pairing record chosen, given whether the user's record (looked for
/// only when the home directory is known) and the system's record exist:
/// the user's is preferred.
pub open spec fn pairing_file_choice(
    home: Option<Seq<char>>,
    udid: Seq<char>,
    user_exists: bool,
    system_exists: bool,
) -> Option<Seq<char>> {
    if home is Some && user_exists {
        Some(user_pairing_path(home->0, udid))
    } else if system_exists {
        Some(system_pairing_path(udid))
    } else {
        None
    }
}

/// The pairing record to use, given which of the candidate locations exist
/// (see [`pairing_file_choice`]).
pub fn find_pairing_file_given(
    home: Option<&str>,
    udid: &str,
    user_exists: bool,
    system_exists: bool,
) -> (r: Option<String>)
    ensures
        match r {
            Some(p) => pairing_file_choice(opt_str_chars(home), udid@, user_exists, system_exists)
                == Some(p@),
            None => pairing_file_choice(opt_str_chars(home), udid@, user_exists, system_exists)
                is None,
        },
{
    let candidates = pairing_file_candidates(home, udid);
    if home.is_some() && user_exists {
        return Some(candidates[0].clone());
    }
    if system_exists {
        let last = candidates.len() - 1;
        return Some(candidates[last].clone());
    }
    None
}

/// The first pairing-record location that exists on the filesystem: the
/// user's lockdown directory first, then the system's (see
/// [`find_pairing_file_given`]).
pub fn find_pairing_file(home: Option<&str>, udid: &str) -> (r: Option<String>)
    ensures
        match r {
            Some(p) => p@ == system_pairing_path(udid@) || (home matches Some(h) && p@
                == user_pairing_path(h@, udid@)),
            None => true,
        },
{
    let candidates = pairing_file_candidates(home, udid);
    let user_exists = if home.is_some() {
        path_exists(candidates[0].as_str())
    } else {
        false
    };
    let system_exists = if user_exists {
        false
    } else {
        let last = candidates.len() - 1;
        path_exists(candidates[last].as_str())
    };
    find_pairing_file_given(home, udid, user_exists, system_exists)
}

/// The host name (with the lockdown port) that resolves to a CoreDevice.
pub fn coredevice_lookup_host(udid: &str) -> (r: String)
    ensures
        r@ == udid@ + ".coredevice.local:62078"@,
{
    let mut s = udid.to_string();
    push_str(&mut s, ".coredevice.local:62078");
    s
}

} // verus!
