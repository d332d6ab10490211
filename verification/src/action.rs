//! The actions that can be performed on a device, and their results.
//!
//! Durations given in seconds are held as the IEEE-754 bit pattern of an
//! `f64` (`f64::to_bits`).

use vstd::prelude::*;

verus! {

/// The result of executing an action.
#[derive(Debug, Clone)]
pub enum ActionResult {
    /// The action completed successfully.
    Success,
    /// The action failed with the given error message.
    Failure(String),
}

/// The kinds of action that can be performed on a device.
#[derive(Debug, Clone)]
pub enum ActionType {
    /// Tap an element by ID or label.
    Tap {
        /// The selector value (accessibility ID or label).
        selector: String,
        /// If true, selector is an accessibility label; if false, an ID.
        by_label: bool,
        /// Optional element type filter (e.g. "Button").
        element_type: Option<String>,
    },
    /// Tap at specific screen coordinates.
    TapLocation {
        /// The x-coordinate in screen points.
        x: i32,
        /// The y-coordinate in screen points.
        y: i32,
    },
    /// Swipe the screen in a direction: "up", "down", "left" or "right".
    Swipe { direction: String },
    /// Long press at specific screen coordinates.
    LongPress {
        /// The x-coordinate in screen points.
        x: i32,
        /// The y-coordinate in screen points.
        y: i32,
        /// How long to press, in seconds (`f64` bit pattern).
        duration: u64,
    },
    /// Log a comment (for documentation purposes).
    LogComment { message: String },
    /// Capture a screenshot of the current screen.
    GetScreenshot,
    /// Get accessibility information for all elements on screen.
    GetScreenInfo,
    /// Get the current value of an element by ID or label.
    GetValue { selector: String, by_label: bool, element_type: Option<String> },
    /// Send keyboard input.
    SendKeys { text: String },
    /// Wait for an element to appear on screen.
    WaitFor {
        selector: String,
        by_label: bool,
        element_type: Option<String>,
        /// Maximum time to wait in milliseconds.
        timeout_ms: u64,
    },
    /// Wait for an element to disappear from screen.
    WaitForNot {
        selector: String,
        by_label: bool,
        element_type: Option<String>,
        /// Maximum time to wait in milliseconds.
        timeout_ms: u64,
    },
    /// Start a new automation session.
    StartSession,
    /// End the current session but keep the REPL running.
    EndSession,
    /// Quit the REPL entirely.
    Quit,
}

/// The short name of an action kind.
pub open spec fn action_name(a: ActionType) -> Seq<char> {
    match a {
        ActionType::Tap { .. } => "tap"@,
        ActionType::TapLocation { .. } => "tap_location"@,
        ActionType::Swipe { .. } => "swipe"@,
        ActionType::LongPress { .. } => "long_press"@,
        ActionType::LogComment { .. } => "log_comment"@,
        ActionType::GetScreenshot => "get_screenshot"@,
        ActionType::GetScreenInfo => "get_screen_info"@,
        ActionType::GetValue { .. } => "get_value"@,
        ActionType::SendKeys { .. } => "send_keys"@,
        ActionType::WaitFor { .. } => "wait_for"@,
        ActionType::WaitForNot { .. } => "wait_for_not"@,
        ActionType::StartSession => "start_session"@,
        ActionType::EndSession => "end_session"@,
        ActionType::Quit => "quit"@,
    }
}

impl ActionType {
    /// A short, static name for this action kind.
    pub fn name(&self) -> (r: &'static str)
        ensures
            r@ == action_name(*self),
    {
        match self {
            ActionType::Tap { .. } => "tap",
            ActionType::TapLocation { .. } => "tap_location",
            ActionType::Swipe { .. } => "swipe",
            ActionType::LongPress { .. } => "long_press",
            ActionType::LogComment { .. } => "log_comment",
            ActionType::GetScreenshot => "get_screenshot",
            ActionType::GetScreenInfo => "get_screen_info",
            ActionType::GetValue { .. } => "get_value",
            ActionType::SendKeys { .. } => "send_keys",
            ActionType::WaitFor { .. } => "wait_for",
            ActionType::WaitForNot { .. } => "wait_for_not",
            ActionType::StartSession => "start_session",
            ActionType::EndSession => "end_session",
            ActionType::Quit => "quit",
        }
    }
}

} // verus!
