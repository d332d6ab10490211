//! Execution of automation actions: what each action asks of the automation
//! backend, and the result it yields from the backend's answer.
//!
//! Running an action alternates backend calls with decisions. The decisions
//! stand here: [`plan`] says which backend call an action needs (or its
//! immediate result), the `*_result` functions turn a backend answer into an
//! [`ExecutionResult`], and [`WaitState`] decides, poll after poll, when an
//! awaited element has settled. The caller performs the calls, the polling
//! and the sleeping in between.

use vstd::prelude::*;
use crate::action::ActionType;
use crate::driver::{describes, DriverError};
use crate::element::ElementFrame;
use crate::text::{dec, dec_int, push_dec, push_dec_i64, push_str};

verus! {

/// Result of executing an action.
#[derive(Debug, Clone)]
pub struct ExecutionResult {
    /// Whether the action completed successfully.
    pub success: bool,
    /// Human-readable description of the result.
    pub message: String,
    /// Screenshot captured after the action (base64-encoded PNG).
    pub screenshot: Option<String>,
    /// Additional data returned by the action (JSON, element values, ...).
    pub data: Option<String>,
}

/// The mathematical form of an [`ExecutionResult`].
pub struct ExecView {
    pub success: bool,
    pub message: Seq<char>,
    pub screenshot: Option<Seq<char>>,
    pub data: Option<Seq<char>>,
}

/// The characters of an optional string.
pub open spec fn opt_view(o: Option<String>) -> Option<Seq<char>> {
    match o {
        Some(s) => Some(s@),
        None => None,
    }
}

impl View for ExecutionResult {
    type V = ExecView;

    open spec fn view(&self) -> ExecView {
        ExecView {
            success: self.success,
            message: self.message@,
            screenshot: opt_view(self.screenshot),
            data: opt_view(self.data),
        }
    }
}

/// A successful result with the given message and nothing attached.
pub open spec fn ok_view(m: Seq<char>) -> ExecView {
    ExecView { success: true, message: m, screenshot: None, data: None }
}

/// A failed result with the given message and nothing attached.
pub open spec fn fail_view(m: Seq<char>) -> ExecView {
    ExecView { success: false, message: m, screenshot: None, data: None }
}

/// The result with data attached.
pub open spec fn with_data_view(r: ExecView, d: Seq<char>) -> ExecView {
    ExecView { data: Some(d), ..r }
}

/// The result with a screenshot attached.
pub open spec fn with_shot_view(r: ExecView, s: Seq<char>) -> ExecView {
    ExecView { screenshot: Some(s), ..r }
}

/// The result with the optional screenshot attached when there is one.
pub open spec fn with_opt_shot_view(r: ExecView, s: Option<Seq<char>>) -> ExecView {
    match s {
        Some(x) => with_shot_view(r, x),
        None => r,
    }
}

/// `r` is the failure that reports backend error `e`.
pub open spec fn reports(r: ExecView, e: DriverError) -> bool {
    &&& !r.success
    &&& describes(e, r.message)
    &&& r.screenshot is None
    &&& r.data is None
}

impl ExecutionResult {
    /// A successful result with a message.
    pub fn success(message: &str) -> (r: Self)
        ensures
            r@ == ok_view(message@),
    {
        ExecutionResult {
            success: true,
            message: message.to_string(),
            screenshot: None,
            data: None,
        }
    }

    /// A failed result with an error message.
    pub fn failure(message: &str) -> (r: Self)
        ensures
            r@ == fail_view(message@),
    {
        ExecutionResult {
            success: false,
            message: message.to_string(),
            screenshot: None,
            data: None,
        }
    }

    /// The result with a screenshot attached.
    pub fn with_screenshot(self, screenshot: String) -> (r: Self)
        ensures
            r@ == with_shot_view(self@, screenshot@),
    {
        let mut r = self;
        r.screenshot = Some(screenshot);
        r
    }

    /// The result with data attached.
    pub fn with_data(self, data: String) -> (r: Self)
        ensures
            r@ == with_data_view(self@, data@),
    {
        let mut r = self;
        r.data = Some(data);
        r
    }
}

fn succeeded(message: String) -> (r: ExecutionResult)
    ensures
        r@ == ok_view(message@),
{
    ExecutionResult { success: true, message, screenshot: None, data: None }
}

fn failed(message: String) -> (r: ExecutionResult)
    ensures
        r@ == fail_view(message@),
{
    ExecutionResult { success: false, message, screenshot: None, data: None }
}

fn report(e: &DriverError) -> (r: ExecutionResult)
    ensures
        reports(r@, *e),
{
    failed(e.message())
}

fn attach(r: ExecutionResult, shot: Option<String>) -> (out: ExecutionResult)
    ensures
        out@ == with_opt_shot_view(r@, opt_view(shot)),
{
    match shot {
        Some(s) => r.with_screenshot(s),
        None => r,
    }
}

// ---------------------------------------------------------------------------
// Screenshots
// ---------------------------------------------------------------------------

/// The character of a six-bit value in the standard base64 alphabet
/// (`A`-`Z`, `a`-`z`, `0`-`9`, `+`, `/`).
pub open spec fn base64_char(v: nat) -> char {
    if v < 26 {
        (65 + v) as char
    } else if v < 52 {
        (97 + (v - 26)) as char
    } else if v < 62 {
        (48 + (v - 52)) as char
    } else if v == 62 {
        '+'
    } else {
        '/'
    }
}

/// The standard base64 encoding of the bytes (RFC 4648 alphabet, `=`
/// padding): each group of three bytes becomes four characters; a final
/// group of one or two bytes is padded with `=` to four.
pub open spec fn base64_standard(b: Seq<u8>) -> Seq<char>
    decreases b.len(),
{
    if b.len() == 0 {
        Seq::empty()
    } else if b.len() == 1 {
        seq![base64_char((b[0] / 4) as nat), base64_char(((b[0] % 4) * 16) as nat), '=', '=']
    } else if b.len() == 2 {
        seq![
            base64_char((b[0] / 4) as nat),
            base64_char(((b[0] % 4) * 16 + b[1] / 16) as nat),
            base64_char(((b[1] % 16) * 4) as nat),
            '=',
        ]
    } else {
        seq![
            base64_char((b[0] / 4) as nat),
            base64_char(((b[0] % 4) * 16 + b[1] / 16) as nat),
            base64_char(((b[1] % 16) * 4 + b[2] / 64) as nat),
            base64_char((b[2] % 64) as nat),
        ] + base64_standard(b.subrange(3, b.len() as int))
    }
}

/// Base64-encodes bytes with the `base64` crate's `STANDARD` engine
/// (`Engine::encode`): the result is [`base64_standard`] of the bytes.
#[verifier::external_body]
fn base64_encode(bytes: &[u8]) -> (r: String)
    ensures
        r@ == base64_standard(bytes@),
{
    base64::Engine::encode(&base64::engine::general_purpose::STANDARD, bytes)
}

/// Encodes a captured PNG screenshot for transport: standard base64.
pub fn encode_screenshot(bytes: &[u8]) -> (r: String)
    ensures
        r@ == base64_standard(bytes@),
{
    base64_encode(bytes)
}

/// Whether a successful run of the action is followed by a screenshot
/// capture (when capturing is enabled).
pub open spec fn captures_after(a: ActionType) -> bool {
    match a {
        ActionType::Tap { .. } | ActionType::TapLocation { .. } | ActionType::Swipe { .. }
        | ActionType::LongPress { .. } | ActionType::SendKeys { .. } | ActionType::GetScreenInfo
        | ActionType::GetValue { .. } | ActionType::WaitFor { .. }
        | ActionType::WaitForNot { .. } => true,
        _ => false,
    }
}

/// Whether a successful run of the action is followed by a screenshot capture.
pub fn wants_screenshot(action: &ActionType) -> (r: bool)
    ensures
        r == captures_after(*action),
{
    match action {
        ActionType::Tap { .. } | ActionType::TapLocation { .. } | ActionType::Swipe { .. }
        | ActionType::LongPress { .. } | ActionType::SendKeys { .. } | ActionType::GetScreenInfo
        | ActionType::GetValue { .. } | ActionType::WaitFor { .. }
        | ActionType::WaitForNot { .. } => true,
        _ => false,
    }
}

/// Whether screenshots are captured after actions.
#[derive(Debug, Clone, Copy)]
pub struct CapturePolicy {
    /// Capture a screenshot after each action that takes one.
    pub capture_screenshots: bool,
}

/// Whether the policy captures a screenshot after the action, given whether
/// the action succeeded.
pub open spec fn takes_shot(p: CapturePolicy, a: ActionType, succeeded: bool) -> bool {
    p.capture_screenshots && captures_after(a) && succeeded
}

impl CapturePolicy {
    /// The default policy: capturing is on.
    pub fn new() -> (r: Self)
        ensures
            r.capture_screenshots,
    {
        CapturePolicy { capture_screenshots: true }
    }

    /// Turns capturing on or off.
    pub fn set_capture_screenshots(&mut self, capture: bool)
        ensures
            final(self).capture_screenshots == capture,
    {
        self.capture_screenshots = capture;
    }

    /// Whether to ask the backend for a screenshot after the action.
    pub fn should_capture(&self, action: &ActionType, succeeded: bool) -> (r: bool)
        ensures
            r == takes_shot(*self, *action, succeeded),
    {
        self.capture_screenshots && wants_screenshot(action) && succeeded
    }
}

/// With capturing off no action asks for a screenshot, and a result built
/// without one carries none.
pub proof fn lemma_capture_disabled(p: CapturePolicy, a: ActionType, succeeded: bool, r: ExecView)
    requires
        !p.capture_screenshots,
    ensures
        !takes_shot(p, a, succeeded),
        with_opt_shot_view(r, None) == r,
{
}

// ---------------------------------------------------------------------------
// Planning
// ---------------------------------------------------------------------------

/// A call to the automation backend.
#[derive(Debug)]
pub enum DriverCall {
    /// Tap the element matching the selector and type.
    TapWithType { selector: String, by_label: bool, element_type: String },
    /// Tap the element with the label.
    TapByLabel { label: String },
    /// Tap the element with the identifier.
    TapElement { identifier: String },
    /// Tap at coordinates.
    TapLocation { x: i32, y: i32 },
    /// Swipe between two points; the duration in seconds is an `f64` bit pattern.
    Swipe { start_x: i32, start_y: i32, end_x: i32, end_y: i32, duration: Option<u64> },
    /// Long press at coordinates; the duration in seconds is an `f64` bit pattern.
    LongPress { x: i32, y: i32, duration: u64 },
    /// Type text.
    TypeText { text: String },
    /// Capture a screenshot.
    Screenshot,
    /// List the actionable elements on screen.
    ListElements,
    /// Read the value of the element matching the selector and type.
    GetValueWithType { selector: String, by_label: bool, element_type: String },
    /// Read the value of the element with the label.
    GetValueByLabel { label: String },
    /// Read the value of the element with the identifier.
    GetValue { identifier: String },
}

/// What executing an action takes.
#[derive(Debug)]
pub enum Plan {
    /// One backend call, whose answer the matching `*_result` function turns
    /// into the result.
    Call(DriverCall),
    /// Polling for the element until it appears and settles (`appear`), or
    /// until it is gone; see [`WaitState`].
    Poll { appear: bool },
    /// No backend call: this is the result.
    Finish(ExecutionResult),
}

/// The `f64` bit pattern of 0.3, the duration of a directional swipe in
/// seconds.
pub const SWIPE_SECONDS_BITS: u64 = 0x3FD3333333333333u64;

/// The start and end points of a swipe in a named direction on a typical
/// screen (centred horizontally), if the direction is one of the four known.
pub open spec fn swipe_points(direction: Seq<char>) -> Option<(i32, i32, i32, i32)> {
    if direction == "up"@ {
        Some((195i32, 600i32, 195i32, 300i32))
    } else if direction == "down"@ {
        Some((195i32, 300i32, 195i32, 600i32))
    } else if direction == "left"@ {
        Some((300i32, 420i32, 90i32, 420i32))
    } else if direction == "right"@ {
        Some((90i32, 420i32, 300i32, 420i32))
    } else {
        None
    }
}

/// Each named direction plans a swipe that moves that way: "up" and "down"
/// run vertically through x = 195 between y = 600 and y = 300, "left" and
/// "right" horizontally along y = 420 between x = 300 and x = 90, each the
/// reverse of its opposite; any other direction plans no swipe.
pub proof fn lemma_swipe_directions(direction: Seq<char>)
    ensures
        swipe_points(direction) is Some <==> (direction == "up"@ || direction == "down"@
            || direction == "left"@ || direction == "right"@),
        swipe_points("up"@) matches Some((sx, sy, ex, ey)) && ex == sx && ey < sy,
        swipe_points("down"@) matches Some((sx, sy, ex, ey)) && ex == sx && ey > sy,
        swipe_points("left"@) matches Some((sx, sy, ex, ey)) && ey == sy && ex < sx,
        swipe_points("right"@) matches Some((sx, sy, ex, ey)) && ey == sy && ex > sx,
        swipe_points("up"@) matches Some((sx, sy, ex, ey)) && sx == 195 && sy == 600 && ey == 300,
        swipe_points("right"@) matches Some((sx, sy, ex, ey)) && sy == 420 && sx == 90 && ex == 300,
        swipe_points("up"@) matches Some((a, b, c, d)) && swipe_points("down"@) == Some((c, d, a, b)),
        swipe_points("right"@) matches Some((a, b, c, d)) && swipe_points("left"@) == Some(
            (c, d, a, b),
        ),
{
    reveal_strlit("up");
    reveal_strlit("down");
    reveal_strlit("left");
    reveal_strlit("right");
    assert("down"@[0] != "up"@[0]);
    assert("left"@[0] != "up"@[0] && "left"@[0] != "down"@[0]);
    assert("right"@[0] != "up"@[0] && "right"@[0] != "down"@[0] && "right"@[0] != "left"@[0]);
}

/// The message for an unknown swipe direction.
pub open spec fn bad_direction_message(direction: Seq<char>) -> Seq<char> {
    "Invalid swipe direction '"@ + direction + "'. Use: up, down, left, right"@
}

/// The message for negative tap coordinates.
pub open spec fn bad_coordinates_message(x: i32, y: i32) -> Seq<char> {
    "Coordinates must be non-negative (got x="@ + dec_int(x as int) + ", y="@ + dec_int(
        y as int,
    ) + ")"@
}

/// The message for a session action reaching the executor.
pub open spec fn session_action_message() -> Seq<char> {
    "Session management actions must be handled by the session manager"@
}

/// The message for a logged comment.
pub open spec fn logged_message(m: Seq<char>) -> Seq<char> {
    "Logged: "@ + m
}

/// Whether two strings are equal by characters.
fn same_text(a: &str, b: &str) -> (r: bool)
    ensures
        r == (a@ == b@),
{
    let n = a.unicode_len();
    if n != b.unicode_len() {
        return false;
    }
    let mut i: usize = 0;
    while i < n
        invariant
            n == a@.len(),
            n == b@.len(),
            i <= n,
            forall|k: int| 0 <= k < i ==> a@[k] == b@[k],
        decreases n - i,
    {
        if a.get_char(i) != b.get_char(i) {
            return false;
        }
        i = i + 1;
    }
    assert(a@ =~= b@);
    true
}

/// The swipe points for a direction (see [`swipe_points`]).
pub fn swipe_points_for(direction: &str) -> (r: Option<(i32, i32, i32, i32)>)
    ensures
        r == swipe_points(direction@),
{
    if same_text(direction, "up") {
        Some((195, 600, 195, 300))
    } else if same_text(direction, "down") {
        Some((195, 300, 195, 600))
    } else if same_text(direction, "left") {
        Some((300, 420, 90, 420))
    } else if same_text(direction, "right") {
        Some((90, 420, 300, 420))
    } else {
        None
    }
}

/// The backend call, polling or immediate result that the action takes.
///
/// Taps and value reads go by type when a type is given, else by label or
/// identifier; coordinates must be non-negative; a swipe must name one of
/// four directions; comments are logged without the backend; session
/// actions are refused (they belong to the session manager).
pub fn plan(action: &ActionType) -> (p: Plan)
    ensures
        match *action {
            ActionType::Tap { selector, by_label, element_type } => match element_type {
                Some(t) => p matches Plan::Call(DriverCall::TapWithType { selector: s, by_label: b, element_type: u })
                    && s@ == selector@ && b == by_label && u@ == t@,
                None => if by_label {
                    p matches Plan::Call(DriverCall::TapByLabel { label }) && label@ == selector@
                } else {
                    p matches Plan::Call(DriverCall::TapElement { identifier }) && identifier@ == selector@
                },
            },
            ActionType::TapLocation { x, y } => if x < 0 || y < 0 {
                p matches Plan::Finish(r) && r@ == fail_view(bad_coordinates_message(x, y))
            } else {
                p matches Plan::Call(DriverCall::TapLocation { x: a, y: b }) && a == x && b == y
            },
            ActionType::Swipe { direction } => match swipe_points(direction@) {
                Some((sx, sy, ex, ey)) => p matches Plan::Call(DriverCall::Swipe { start_x, start_y, end_x, end_y, duration })
                    && start_x == sx && start_y == sy && end_x == ex && end_y == ey
                    && duration == Some(SWIPE_SECONDS_BITS),
                None => p matches Plan::Finish(r) && r@ == fail_view(bad_direction_message(direction@)),
            },
            ActionType::LongPress { x, y, duration } => p matches Plan::Call(DriverCall::LongPress { x: a, y: b, duration: d })
                && a == x && b == y && d == duration,
            ActionType::SendKeys { text } => p matches Plan::Call(DriverCall::TypeText { text: t })
                && t@ == text@,
            ActionType::GetScreenshot => p matches Plan::Call(DriverCall::Screenshot),
            ActionType::GetScreenInfo => p matches Plan::Call(DriverCall::ListElements),
            ActionType::GetValue { selector, by_label, element_type } => match element_type {
                Some(t) => p matches Plan::Call(DriverCall::GetValueWithType { selector: s, by_label: b, element_type: u })
                    && s@ == selector@ && b == by_label && u@ == t@,
                None => if by_label {
                    p matches Plan::Call(DriverCall::GetValueByLabel { label }) && label@ == selector@
                } else {
                    p matches Plan::Call(DriverCall::GetValue { identifier }) && identifier@ == selector@
                },
            },
            ActionType::LogComment { message } => p matches Plan::Finish(r) && r@ == ok_view(
                logged_message(message@),
            ),
            ActionType::WaitFor { .. } => p == (Plan::Poll { appear: true }),
            ActionType::WaitForNot { .. } => p == (Plan::Poll { appear: false }),
            _ => p matches Plan::Finish(r) && r@ == fail_view(session_action_message()),
        },
{
    match action {
        ActionType::Tap { selector, by_label, element_type } => match element_type {
            Some(t) => Plan::Call(
                DriverCall::TapWithType {
                    selector: selector.clone(),
                    by_label: *by_label,
                    element_type: t.clone(),
                },
            ),
            None => if *by_label {
                Plan::Call(DriverCall::TapByLabel { label: selector.clone() })
            } else {
                Plan::Call(DriverCall::TapElement { identifier: selector.clone() })
            },
        },
        ActionType::TapLocation { x, y } => {
            if *x < 0 || *y < 0 {
                let mut m = String::from_str("Coordinates must be non-negative (got x=");
                push_dec_i64(&mut m, *x as i64);
                push_str(&mut m, ", y=");
                push_dec_i64(&mut m, *y as i64);
                push_str(&mut m, ")");
                Plan::Finish(failed(m))
            } else {
                Plan::Call(DriverCall::TapLocation { x: *x, y: *y })
            }
        },
        ActionType::Swipe { direction } => match swipe_points_for(direction.as_str()) {
            Some((sx, sy, ex, ey)) => Plan::Call(
                DriverCall::Swipe {
                    start_x: sx,
                    start_y: sy,
                    end_x: ex,
                    end_y: ey,
                    duration: Some(SWIPE_SECONDS_BITS),
                },
            ),
            None => {
                let mut m = String::from_str("Invalid swipe direction '");
                push_str(&mut m, direction.as_str());
                push_str(&mut m, "'. Use: up, down, left, right");
                Plan::Finish(failed(m))
            },
        },
        ActionType::LongPress { x, y, duration } => Plan::Call(
            DriverCall::LongPress { x: *x, y: *y, duration: *duration },
        ),
        ActionType::SendKeys { text } => Plan::Call(DriverCall::TypeText { text: text.clone() }),
        ActionType::GetScreenshot => Plan::Call(DriverCall::Screenshot),
        ActionType::GetScreenInfo => Plan::Call(DriverCall::ListElements),
        ActionType::GetValue { selector, by_label, element_type } => match element_type {
            Some(t) => Plan::Call(
                DriverCall::GetValueWithType {
                    selector: selector.clone(),
                    by_label: *by_label,
                    element_type: t.clone(),
                },
            ),
            None => if *by_label {
                Plan::Call(DriverCall::GetValueByLabel { label: selector.clone() })
            } else {
                Plan::Call(DriverCall::GetValue { identifier: selector.clone() })
            },
        },
        ActionType::LogComment { message } => {
            let mut m = String::from_str("Logged: ");
            push_str(&mut m, message.as_str());
            Plan::Finish(succeeded(m))
        },
        ActionType::WaitFor { .. } => Plan::Poll { appear: true },
        ActionType::WaitForNot { .. } => Plan::Poll { appear: false },
        _ => Plan::Finish(
            failed(
                String::from_str(
                    "Session management actions must be handled by the session manager",
                ),
            ),
        ),
    }
}

// ---------------------------------------------------------------------------
// Results of backend calls
// ---------------------------------------------------------------------------

/// How an element is named in messages: `with label 'x'` or `'x'`.
pub open spec fn subject(selector: Seq<char>, by_label: bool) -> Seq<char> {
    if by_label {
        "with label '"@ + selector + "'"@
    } else {
        "'"@ + selector + "'"@
    }
}

fn push_subject(s: &mut String, selector: &str, by_label: bool)
    ensures
        final(s)@ == old(s)@ + subject(selector@, by_label),
{
    if by_label {
        push_str(s, "with label '");
    } else {
        push_str(s, "'");
    }
    push_str(s, selector);
    push_str(s, "'");
}

/// The result of a tap on an element: on success `Tapped element <subject>`
/// with the screenshot taken afterwards, else the backend's error.
pub fn tap_result(
    selector: &str,
    by_label: bool,
    outcome: Result<(), DriverError>,
    shot: Option<String>,
) -> (r: ExecutionResult)
    ensures
        match outcome {
            Ok(_) => r@ == with_opt_shot_view(
                ok_view("Tapped element "@ + subject(selector@, by_label)),
                opt_view(shot),
            ),
            Err(e) => reports(r@, e),
        },
{
    match outcome {
        Ok(_) => {
            let mut m = String::from_str("Tapped element ");
            push_subject(&mut m, selector, by_label);
            attach(succeeded(m), shot)
        },
        Err(e) => report(&e),
    }
}

/// The message for a tap at coordinates.
pub open spec fn tapped_at_message(x: i32, y: i32) -> Seq<char> {
    "Tapped at ("@ + dec_int(x as int) + ", "@ + dec_int(y as int) + ")"@
}

/// The result of a tap at coordinates.
pub fn tap_location_result(
    x: i32,
    y: i32,
    outcome: Result<(), DriverError>,
    shot: Option<String>,
) -> (r: ExecutionResult)
    ensures
        match outcome {
            Ok(_) => r@ == with_opt_shot_view(ok_view(tapped_at_message(x, y)), opt_view(shot)),
            Err(e) => reports(r@, e),
        },
{
    match outcome {
        Ok(_) => {
            let mut m = String::from_str("Tapped at (");
            push_dec_i64(&mut m, x as i64);
            push_str(&mut m, ", ");
            push_dec_i64(&mut m, y as i64);
            push_str(&mut m, ")");
            attach(succeeded(m), shot)
        },
        Err(e) => report(&e),
    }
}

/// The result of a swipe: on success `Swiped <direction>`.
pub fn swipe_result(direction: &str, outcome: Result<(), DriverError>, shot: Option<String>) -> (r:
    ExecutionResult)
    ensures
        match outcome {
            Ok(_) => r@ == with_opt_shot_view(ok_view("Swiped "@ + direction@), opt_view(shot)),
            Err(e) => reports(r@, e),
        },
{
    match outcome {
        Ok(_) => {
            let mut m = String::from_str("Swiped ");
            push_str(&mut m, direction);
            attach(succeeded(m), shot)
        },
        Err(e) => report(&e),
    }
}

/// The message for a long press; `seconds` is the duration written with one
/// decimal.
pub open spec fn long_press_message(x: i32, y: i32, seconds: Seq<char>) -> Seq<char> {
    "Long pressed at ("@ + dec_int(x as int) + ", "@ + dec_int(y as int) + ") for "@ + seconds
        + "s"@
}

/// The result of a long press; `seconds` is the press duration written with
/// one decimal (`{:.1}`).
pub fn long_press_result(
    x: i32,
    y: i32,
    seconds: &str,
    outcome: Result<(), DriverError>,
    shot: Option<String>,
) -> (r: ExecutionResult)
    ensures
        match outcome {
            Ok(_) => r@ == with_opt_shot_view(
                ok_view(long_press_message(x, y, seconds@)),
                opt_view(shot),
            ),
            Err(e) => reports(r@, e),
        },
{
    match outcome {
        Ok(_) => {
            let mut m = String::from_str("Long pressed at (");
            push_dec_i64(&mut m, x as i64);
            push_str(&mut m, ", ");
            push_dec_i64(&mut m, y as i64);
            push_str(&mut m, ") for ");
            push_str(&mut m, seconds);
            push_str(&mut m, "s");
            attach(succeeded(m), shot)
        },
        Err(e) => report(&e),
    }
}

/// The result of typing text: on success `Sent keys: '<text>'`.
pub fn send_keys_result(text: &str, outcome: Result<(), DriverError>, shot: Option<String>) -> (r:
    ExecutionResult)
    ensures
        match outcome {
            Ok(_) => r@ == with_opt_shot_view(
                ok_view("Sent keys: '"@ + text@ + "'"@),
                opt_view(shot),
            ),
            Err(e) => reports(r@, e),
        },
{
    match outcome {
        Ok(_) => {
            let mut m = String::from_str("Sent keys: '");
            push_str(&mut m, text);
            push_str(&mut m, "'");
            attach(succeeded(m), shot)
        },
        Err(e) => report(&e),
    }
}

/// The result of a screenshot request: the base64 image both as the
/// screenshot and as the data.
pub fn screenshot_result(outcome: Result<Vec<u8>, DriverError>) -> (r: ExecutionResult)
    ensures
        match outcome {
            Ok(bytes) => r@ == with_data_view(
                with_shot_view(ok_view("Screenshot captured"@), base64_standard(bytes@)),
                base64_standard(bytes@),
            ),
            Err(e) => reports(r@, e),
        },
{
    match outcome {
        Ok(bytes) => {
            let b64 = encode_screenshot(bytes.as_slice());
            let copy = b64.clone();
            ExecutionResult::success("Screenshot captured").with_screenshot(copy).with_data(b64)
        },
        Err(e) => report(&e),
    }
}

/// The result of a screen-info request, given the backend's answer and, when
/// it listed the elements, their JSON text or the serializer's error text.
pub fn screen_info_result(
    outcome: Result<(), DriverError>,
    json: Result<String, String>,
    shot: Option<String>,
) -> (r: ExecutionResult)
    ensures
        match outcome {
            Err(e) => reports(r@, e),
            Ok(_) => match json {
                Ok(j) => r@ == with_opt_shot_view(
                    with_data_view(ok_view("Screen info retrieved"@), j@),
                    opt_view(shot),
                ),
                Err(m) => r@ == fail_view("JSON serialization error: "@ + m@),
            },
        },
{
    match outcome {
        Err(e) => report(&e),
        Ok(_) => match json {
            Ok(j) => attach(ExecutionResult::success("Screen info retrieved").with_data(j), shot),
            Err(m) => {
                let mut s = String::from_str("JSON serialization error: ");
                push_str(&mut s, m.as_str());
                failed(s)
            },
        },
    }
}

/// The message for a value that was read.
pub open spec fn got_value_message(selector: Seq<char>, by_label: bool) -> Seq<char> {
    if by_label {
        "Got value for label '"@ + selector + "'"@
    } else {
        "Got value for '"@ + selector + "'"@
    }
}

/// The result of reading an element's value: the value as data, or `null`
/// when the element has none.
pub fn get_value_result(
    selector: &str,
    by_label: bool,
    outcome: Result<Option<String>, DriverError>,
    shot: Option<String>,
) -> (r: ExecutionResult)
    ensures
        match outcome {
            Ok(Some(v)) => r@ == with_opt_shot_view(
                with_data_view(ok_view(got_value_message(selector@, by_label)), v@),
                opt_view(shot),
            ),
            Ok(None) => r@ == with_opt_shot_view(
                with_data_view(
                    ok_view("Element "@ + subject(selector@, by_label) + " has no value"@),
                    "null"@,
                ),
                opt_view(shot),
            ),
            Err(e) => reports(r@, e),
        },
{
    match outcome {
        Ok(Some(v)) => {
            let mut m = if by_label {
                String::from_str("Got value for label '")
            } else {
                String::from_str("Got value for '")
            };
            push_str(&mut m, selector);
            push_str(&mut m, "'");
            attach(succeeded(m).with_data(v), shot)
        },
        Ok(None) => {
            let mut m = String::from_str("Element ");
            push_subject(&mut m, selector, by_label);
            push_str(&mut m, " has no value");
            attach(succeeded(m).with_data(String::from_str("null")), shot)
        },
        Err(e) => report(&e),
    }
}

// ---------------------------------------------------------------------------
// Waiting for an element
// ---------------------------------------------------------------------------

/// Consecutive polls with an unchanged frame needed before an element counts
/// as settled (so a tap does not land during an animation).
pub const STABLE_POLLS_REQUIRED: u32 = 3;

/// Milliseconds between polls.
pub const POLL_INTERVAL_MS: u64 = 100;

/// The bit pattern is an `f64` NaN.
pub open spec fn is_nan_bits(b: u64) -> bool {
    (b & 0x7FF0_0000_0000_0000u64) == 0x7FF0_0000_0000_0000u64 && (b & 0x000F_FFFF_FFFF_FFFFu64)
        != 0
}

/// Two `f64` bit patterns are equal as numbers (`==` on `f64`): NaN equals
/// nothing, and the two zeros are equal.
pub open spec fn f64_bits_eq(a: u64, b: u64) -> bool {
    !is_nan_bits(a) && !is_nan_bits(b) && (a == b || ((a & 0x7FFF_FFFF_FFFF_FFFFu64) == 0 && (b
        & 0x7FFF_FFFF_FFFF_FFFFu64) == 0))
}

/// Two frames are equal coordinate by coordinate as `f64` numbers.
pub open spec fn frames_eq(a: ElementFrame, b: ElementFrame) -> bool {
    &&& f64_bits_eq(a.x, b.x)
    &&& f64_bits_eq(a.y, b.y)
    &&& f64_bits_eq(a.width, b.width)
    &&& f64_bits_eq(a.height, b.height)
}

fn f64_bits_eq_exec(a: u64, b: u64) -> (r: bool)
    ensures
        r == f64_bits_eq(a, b),
{
    let a_nan = (a & 0x7FF0_0000_0000_0000u64) == 0x7FF0_0000_0000_0000u64 && (a
        & 0x000F_FFFF_FFFF_FFFFu64) != 0;
    let b_nan = (b & 0x7FF0_0000_0000_0000u64) == 0x7FF0_0000_0000_0000u64 && (b
        & 0x000F_FFFF_FFFF_FFFFu64) != 0;
    !a_nan && !b_nan && (a == b || ((a & 0x7FFF_FFFF_FFFF_FFFFu64) == 0 && (b
        & 0x7FFF_FFFF_FFFF_FFFFu64) == 0))
}

fn frames_eq_exec(a: &ElementFrame, b: &ElementFrame) -> (r: bool)
    ensures
        r == frames_eq(*a, *b),
{
    f64_bits_eq_exec(a.x, b.x) && f64_bits_eq_exec(a.y, b.y) && f64_bits_eq_exec(
        a.width,
        b.width,
    ) && f64_bits_eq_exec(a.height, b.height)
}

/// What one poll for the awaited element found.
#[derive(Debug, Clone, Copy)]
pub enum PollOutcome {
    /// The lookup failed; the poll counts for nothing.
    Failed,
    /// No such element on screen.
    Absent,
    /// The element is on screen, with its frame if it has one.
    Present(Option<ElementFrame>),
}

/// The progress of a wait for an element to appear and settle.
#[derive(Debug, Clone, Copy)]
pub struct WaitState {
    /// The frame seen at the last poll that found the element.
    pub last_frame: Option<ElementFrame>,
    /// How many consecutive polls have seen the same frame.
    pub stable_count: u32,
}

/// The state after a poll, and whether the element is now settled: an
/// element without a frame settles at once; one whose frame equals the last
/// one seen adds one to the count; a new frame restarts the count at one; an
/// absent element resets the wait; a failed lookup changes nothing.
pub open spec fn wait_next(s: WaitState, p: PollOutcome) -> (WaitState, bool) {
    match p {
        PollOutcome::Failed => (s, false),
        PollOutcome::Absent => (WaitState { last_frame: None, stable_count: 0 }, false),
        PollOutcome::Present(None) => (
            WaitState { stable_count: STABLE_POLLS_REQUIRED, ..s },
            true,
        ),
        PollOutcome::Present(Some(f)) => {
            let same = match s.last_frame {
                Some(l) => frames_eq(f, l),
                None => false,
            };
            let n: u32 = if same {
                (s.stable_count + 1) as u32
            } else {
                1
            };
            let last = if same {
                s.last_frame
            } else {
                Some(f)
            };
            (WaitState { last_frame: last, stable_count: n }, n >= STABLE_POLLS_REQUIRED)
        },
    }
}

impl WaitState {
    /// The state before the first poll.
    pub fn new() -> (r: Self)
        ensures
            r.last_frame is None,
            r.stable_count == 0,
    {
        WaitState { last_frame: None, stable_count: 0 }
    }

    /// Records one poll; returns whether the element has appeared and
    /// settled (see [`wait_next`]).
    pub fn step(&mut self, poll: PollOutcome) -> (settled: bool)
        requires
            old(self).stable_count < STABLE_POLLS_REQUIRED,
        ensures
            (*final(self), settled) == wait_next(*old(self), poll),
            !settled ==> final(self).stable_count < STABLE_POLLS_REQUIRED,
    {
        match poll {
            PollOutcome::Failed => false,
            PollOutcome::Absent => {
                self.last_frame = None;
                self.stable_count = 0;
                false
            },
            PollOutcome::Present(None) => {
                self.stable_count = STABLE_POLLS_REQUIRED;
                true
            },
            PollOutcome::Present(Some(f)) => {
                let same = match &self.last_frame {
                    Some(l) => frames_eq_exec(&f, l),
                    None => false,
                };
                if same {
                    self.stable_count = self.stable_count + 1;
                } else {
                    self.stable_count = 1;
                    self.last_frame = Some(f);
                }
                self.stable_count >= STABLE_POLLS_REQUIRED
            },
        }
    }
}

/// `f64` equality on bit patterns: it is symmetric, a NaN equals nothing,
/// every other value equals itself, and apart from the two zeros equal
/// values have equal bits.
pub proof fn lemma_f64_equality(a: u64, b: u64)
    ensures
        f64_bits_eq(a, b) == f64_bits_eq(b, a),
        is_nan_bits(a) ==> !f64_bits_eq(a, b),
        !is_nan_bits(a) ==> f64_bits_eq(a, a),
        f64_bits_eq(a, b) && a != b ==> (a & 0x7FFF_FFFF_FFFF_FFFFu64) == 0 && (b
            & 0x7FFF_FFFF_FFFF_FFFFu64) == 0,
{
}

/// A poll that finds the element at a frame differing from the last one
/// seen in its x, y, width or height (or with no frame seen yet) restarts
/// the count at one from that frame, and the element is not settled.
pub proof fn lemma_wait_new_frame_restarts(s: WaitState, f: ElementFrame)
    requires
        s.last_frame matches Some(l) ==> !(f64_bits_eq(f.x, l.x) && f64_bits_eq(f.y, l.y)
            && f64_bits_eq(f.width, l.width) && f64_bits_eq(f.height, l.height)),
    ensures
        wait_next(s, PollOutcome::Present(Some(f))).0.stable_count == 1,
        wait_next(s, PollOutcome::Present(Some(f))).0.last_frame == Some(f),
        !wait_next(s, PollOutcome::Present(Some(f))).1,
{
}

/// A poll that finds the element at the same frame as the last one seen,
/// in all four coordinates, adds one to the count and keeps that frame.
pub proof fn lemma_wait_same_frame_counts(s: WaitState, f: ElementFrame)
    requires
        s.stable_count < STABLE_POLLS_REQUIRED,
        s.last_frame matches Some(l) && f64_bits_eq(f.x, l.x) && f64_bits_eq(f.y, l.y)
            && f64_bits_eq(f.width, l.width) && f64_bits_eq(f.height, l.height),
    ensures
        wait_next(s, PollOutcome::Present(Some(f))).0.stable_count == s.stable_count + 1,
        wait_next(s, PollOutcome::Present(Some(f))).0.last_frame == s.last_frame,
        wait_next(s, PollOutcome::Present(Some(f))).1 == (s.stable_count + 1 >= 3),
{
}

/// A wait settles on a framed element only when its frame equals the last
/// one seen in all four coordinates and two polls already saw it; failed
/// and empty polls never settle it.
pub proof fn lemma_wait_settles_only_when_stable(s: WaitState, p: PollOutcome)
    requires
        s.stable_count < STABLE_POLLS_REQUIRED,
    ensures
        wait_next(s, p).1 ==> match p {
            PollOutcome::Present(Some(f)) => s.last_frame matches Some(l) && f64_bits_eq(f.x, l.x)
                && f64_bits_eq(f.y, l.y) && f64_bits_eq(f.width, l.width) && f64_bits_eq(
                f.height,
                l.height,
            ) && s.stable_count >= 2,
            PollOutcome::Present(None) => true,
            _ => false,
        },
{
}

/// From the start of a wait, three polls finding the element at one
/// (non-NaN) frame settle it on the third and not before; a frame that
/// changes in any coordinate at the second poll keeps it unsettled through
/// the third.
pub proof fn lemma_wait_three_polls(f: ElementFrame, g: ElementFrame)
    requires
        !is_nan_bits(f.x) && !is_nan_bits(f.y) && !is_nan_bits(f.width) && !is_nan_bits(f.height),
        !is_nan_bits(g.x) && !is_nan_bits(g.y) && !is_nan_bits(g.width) && !is_nan_bits(g.height),
    ensures
        ({
            let s0 = WaitState { last_frame: None, stable_count: 0 };
            let r1 = wait_next(s0, PollOutcome::Present(Some(f)));
            let r2 = wait_next(r1.0, PollOutcome::Present(Some(f)));
            let r3 = wait_next(r2.0, PollOutcome::Present(Some(f)));
            !r1.1 && !r2.1 && r3.1
        }),
        ({
            let s0 = WaitState { last_frame: None, stable_count: 0 };
            let r1 = wait_next(s0, PollOutcome::Present(Some(f)));
            let r2 = wait_next(r1.0, PollOutcome::Present(Some(g)));
            let r3 = wait_next(r2.0, PollOutcome::Present(Some(g)));
            !(f64_bits_eq(g.x, f.x) && f64_bits_eq(g.y, f.y) && f64_bits_eq(g.width, f.width)
                && f64_bits_eq(g.height, f.height)) ==> !r1.1 && !r2.1 && !r3.1
                && r3.0.stable_count == 2
        }),
{
}

/// Whether a wait that has run `elapsed_ms` with limit `timeout_ms` is over.
pub fn wait_timed_out(elapsed_ms: u64, timeout_ms: u64) -> (r: bool)
    ensures
        r == (elapsed_ms >= timeout_ms),
{
    elapsed_ms >= timeout_ms
}

/// The four coordinates of a frame, each written as `f64` display text.
#[derive(Debug, Clone)]
pub struct FrameText {
    pub x: String,
    pub y: String,
    pub width: String,
    pub height: String,
}

/// `{"elapsed_ms":N}`.
pub open spec fn elapsed_json(elapsed_ms: u64) -> Seq<char> {
    "{\"elapsed_ms\":"@ + dec(elapsed_ms as nat) + "}"@
}

/// `{"elapsed_ms":N,"frame":{"x":..,"y":..,"width":..,"height":..}}`.
pub open spec fn elapsed_frame_json(
    elapsed_ms: u64,
    x: Seq<char>,
    y: Seq<char>,
    w: Seq<char>,
    h: Seq<char>,
) -> Seq<char> {
    "{\"elapsed_ms\":"@ + dec(elapsed_ms as nat) + ",\"frame\":{\"x\":"@ + x + ",\"y\":"@ + y
        + ",\"width\":"@ + w + ",\"height\":"@ + h + "}}"@
}

fn elapsed_data(elapsed_ms: u64) -> (r: String)
    ensures
        r@ == elapsed_json(elapsed_ms),
{
    let mut d = String::from_str("{\"elapsed_ms\":");
    push_dec(&mut d, elapsed_ms);
    push_str(&mut d, "}");
    d
}

/// The result of a wait whose element appeared and settled after
/// `elapsed_ms`: the elapsed time, and the frame when the element has one.
pub fn wait_found_result(
    selector: &str,
    by_label: bool,
    elapsed_ms: u64,
    frame: Option<FrameText>,
    shot: Option<String>,
) -> (r: ExecutionResult)
    ensures
        r@ == with_opt_shot_view(
            with_data_view(
                ok_view("Element "@ + subject(selector@, by_label) + " found"@),
                match frame {
                    Some(f) => elapsed_frame_json(elapsed_ms, f.x@, f.y@, f.width@, f.height@),
                    None => elapsed_json(elapsed_ms),
                },
            ),
            opt_view(shot),
        ),
{
    let mut m = String::from_str("Element ");
    push_subject(&mut m, selector, by_label);
    push_str(&mut m, " found");
    let data = match &frame {
        Some(f) => {
            let mut d = String::from_str("{\"elapsed_ms\":");
            push_dec(&mut d, elapsed_ms);
            push_str(&mut d, ",\"frame\":{\"x\":");
            push_str(&mut d, f.x.as_str());
            push_str(&mut d, ",\"y\":");
            push_str(&mut d, f.y.as_str());
            push_str(&mut d, ",\"width\":");
            push_str(&mut d, f.width.as_str());
            push_str(&mut d, ",\"height\":");
            push_str(&mut d, f.height.as_str());
            push_str(&mut d, "}}");
            d
        },
        None => elapsed_data(elapsed_ms),
    };
    attach(succeeded(m).with_data(data), shot)
}

/// The result of a wait for an element to appear that ran out of time.
pub fn wait_timeout_result(selector: &str, by_label: bool, elapsed_ms: u64) -> (r: ExecutionResult)
    ensures
        r@ == with_data_view(
            fail_view(
                "Timeout after "@ + dec(elapsed_ms as nat) + "ms waiting for element "@ + subject(
                    selector@,
                    by_label,
                ),
            ),
            elapsed_json(elapsed_ms),
        ),
{
    let mut m = String::from_str("Timeout after ");
    push_dec(&mut m, elapsed_ms);
    push_str(&mut m, "ms waiting for element ");
    push_subject(&mut m, selector, by_label);
    failed(m).with_data(elapsed_data(elapsed_ms))
}

/// The result of a wait for an element to disappear that saw it absent after
/// `elapsed_ms`.
pub fn wait_gone_result(selector: &str, by_label: bool, elapsed_ms: u64, shot: Option<String>) -> (r:
    ExecutionResult)
    ensures
        r@ == with_opt_shot_view(
            with_data_view(
                ok_view("Element "@ + subject(selector@, by_label) + " is gone"@),
                elapsed_json(elapsed_ms),
            ),
            opt_view(shot),
        ),
{
    let mut m = String::from_str("Element ");
    push_subject(&mut m, selector, by_label);
    push_str(&mut m, " is gone");
    attach(succeeded(m).with_data(elapsed_data(elapsed_ms)), shot)
}

/// The result of a wait for an element to disappear that ran out of time.
pub fn wait_not_timeout_result(selector: &str, by_label: bool, elapsed_ms: u64) -> (r:
    ExecutionResult)
    ensures
        r@ == with_data_view(
            fail_view(
                "Timeout after "@ + dec(elapsed_ms as nat) + "ms waiting for element "@ + subject(
                    selector@,
                    by_label,
                ) + " to disappear"@,
            ),
            elapsed_json(elapsed_ms),
        ),
{
    let mut m = String::from_str("Timeout after ");
    push_dec(&mut m, elapsed_ms);
    push_str(&mut m, "ms waiting for element ");
    push_subject(&mut m, selector, by_label);
    push_str(&mut m, " to disappear");
    failed(m).with_data(elapsed_data(elapsed_ms))
}

} // verus!
