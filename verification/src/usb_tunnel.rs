//! Errors of the USB tunnel to physical iOS devices (usbmuxd).

use vstd::prelude::*;
use crate::text::push_str;

verus! {

/// Errors that can occur during USB tunnel operations.
#[derive(Debug)]
pub enum UsbTunnelError {
    /// Failed to connect to the local usbmuxd daemon.
    UsbmuxdUnavailable(String),
    /// No device with the given UDID was found.
    DeviceNotFound(String),
    /// Failed to establish a tunnel to the device port.
    ConnectionFailed(String),
    /// The tunnel connection returned no usable socket.
    NoSocket,
}

/// The text that describes a USB tunnel error.
pub open spec fn usb_tunnel_error_message(e: UsbTunnelError) -> Seq<char> {
    match e {
        UsbTunnelError::UsbmuxdUnavailable(m) => "failed to connect to usbmuxd: "@ + m@,
        UsbTunnelError::DeviceNotFound(m) => "device not found: "@ + m@,
        UsbTunnelError::ConnectionFailed(m) => "tunnel connection failed: "@ + m@,
        UsbTunnelError::NoSocket => "tunnel socket unavailable"@,
    }
}

impl UsbTunnelError {
    /// The human-readable description of the error.
    pub fn message(&self) -> (r: String)
        ensures
            r@ == usb_tunnel_error_message(*self),
    {
        match self {
            UsbTunnelError::UsbmuxdUnavailable(m) => {
                let mut s = String::from_str("failed to connect to usbmuxd: ");
                push_str(&mut s, m.as_str());
                s
            },
            UsbTunnelError::DeviceNotFound(m) => {
                let mut s = String::from_str("device not found: ");
                push_str(&mut s, m.as_str());
                s
            },
            UsbTunnelError::ConnectionFailed(m) => {
                let mut s = String::from_str("tunnel connection failed: ");
                push_str(&mut s, m.as_str());
                s
            },
            UsbTunnelError::NoSocket => String::from_str("tunnel socket unavailable"),
        }
    }
}

} // verus!
