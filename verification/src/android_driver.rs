//! The Android side of an agent session: the agent's default port and how a
//! failed `adb forward` reaches the driver.

use vstd::prelude::*;
use crate::adb_forward::{adb_forward_error_message, AdbForwardError};
use crate::driver::DriverError;

verus! {

/// The TCP port the Android agent serves on inside the device by default.
pub const DEFAULT_ANDROID_AGENT_PORT: u16 = 8080;

/// Maps a failed `adb forward` to a lost connection carrying its text, so
/// that the recovery path is entered.
pub fn map_forward_error(err: AdbForwardError) -> (r: DriverError)
    ensures
        r matches DriverError::ConnectionLost(m) && m@ == adb_forward_error_message(err),
{
    DriverError::ConnectionLost(err.message())
}

} // verus!
