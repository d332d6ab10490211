//! How the iOS driver reaches the Swift agent, and how a failed recovery of
//! its connection is reported.

use vstd::prelude::*;
use crate::agent_lifecycle::{agent_lifecycle_error_message, AgentLifecycleError};
use crate::driver::DriverError;
use crate::text::{push_str, starts_with};

verus! {

/// How the driver reaches the Swift agent.
#[derive(Debug, Clone)]
pub enum ConnectionTarget {
    /// Direct TCP (typically a simulator on localhost).
    Direct { host: String, port: u16 },
    /// USB tunnel through usbmuxd to a port on a physical device.
    UsbDevice { udid: String, device_port: u16 },
    /// A pymobiledevice3 tunnel (CoreDevice devices).
    Tunneld { tunnel_address: String, agent_port: u16 },
    /// The native CoreDevice tunnel (iOS 17+).
    CoreDevice { udid: String, port: u16 },
}

/// The host-like name of a target: its host, device id or tunnel address.
pub open spec fn target_host(t: ConnectionTarget) -> Seq<char> {
    match t {
        ConnectionTarget::Direct { host, .. } => host@,
        ConnectionTarget::UsbDevice { udid, .. } => udid@,
        ConnectionTarget::Tunneld { tunnel_address, .. } => tunnel_address@,
        ConnectionTarget::CoreDevice { udid, .. } => udid@,
    }
}

/// The agent port of a target.
pub open spec fn target_port(t: ConnectionTarget) -> u16 {
    match t {
        ConnectionTarget::Direct { port, .. } => port,
        ConnectionTarget::UsbDevice { device_port, .. } => device_port,
        ConnectionTarget::Tunneld { agent_port, .. } => agent_port,
        ConnectionTarget::CoreDevice { port, .. } => port,
    }
}

impl ConnectionTarget {
    /// The host, device id or tunnel address of the target.
    pub fn host(&self) -> (r: &str)
        ensures
            r@ == target_host(*self),
    {
        match self {
            ConnectionTarget::Direct { host, .. } => host.as_str(),
            ConnectionTarget::UsbDevice { udid, .. } => udid.as_str(),
            ConnectionTarget::Tunneld { tunnel_address, .. } => tunnel_address.as_str(),
            ConnectionTarget::CoreDevice { udid, .. } => udid.as_str(),
        }
    }

    /// The agent port of the target.
    pub fn port(&self) -> (r: u16)
        ensures
            r == target_port(*self),
    {
        match self {
            ConnectionTarget::Direct { port, .. } => *port,
            ConnectionTarget::UsbDevice { device_port, .. } => *device_port,
            ConnectionTarget::Tunneld { agent_port, .. } => *agent_port,
            ConnectionTarget::CoreDevice { port, .. } => *port,
        }
    }
}

/// The step of a full recovery that failed.
#[derive(Debug, Clone, Copy, PartialEq, Eq, Structural)]
pub enum RecoveryStage {
    /// Stopping the dead agent.
    Terminate,
    /// Spawning it again.
    Spawn,
    /// Waiting for it to answer.
    WaitReady,
}

/// The words that name a failed recovery step.
pub open spec fn stage_words(s: RecoveryStage) -> Seq<char> {
    match s {
        RecoveryStage::Terminate => "recovery: terminate failed: "@,
        RecoveryStage::Spawn => "recovery: spawn failed: "@,
        RecoveryStage::WaitReady => "recovery: agent not ready: "@,
    }
}

/// The driver error for a failed step of a full recovery: a failed command
/// naming the step, then the lifecycle error's text.
pub fn recovery_failure(stage: RecoveryStage, err: &AgentLifecycleError) -> (r: DriverError)
    ensures
        r matches DriverError::CommandFailed(m) && starts_with(
            m@,
            stage_words(stage) + agent_lifecycle_error_message(*err),
        ) && (!(err is Io) ==> m@ == stage_words(stage) + agent_lifecycle_error_message(*err)),
{
    let mut m = match stage {
        RecoveryStage::Terminate => String::from_str("recovery: terminate failed: "),
        RecoveryStage::Spawn => String::from_str("recovery: spawn failed: "),
        RecoveryStage::WaitReady => String::from_str("recovery: agent not ready: "),
    };
    let ghost pre = m@;
    let t = err.message();
    push_str(&mut m, t.as_str());
    proof {
        let p = agent_lifecycle_error_message(*err);
        assert(m@ == pre + t@);
        assert((pre + t@).subrange(0, (pre + p).len() as int) =~= pre + p);
    }
    DriverError::CommandFailed(m)
}

} // verus!
