use qorvex_core::action::ActionType;
use qorvex_core::driver::DriverError;
use qorvex_core::element::ElementFrame;
use qorvex_core::executor::{
    encode_screenshot, get_value_result, long_press_result, plan, screen_info_result,
    screenshot_result, send_keys_result, swipe_result, tap_location_result, tap_result,
    wait_found_result, wait_gone_result, wait_not_timeout_result, wait_timed_out,
    wait_timeout_result, wants_screenshot, CapturePolicy, DriverCall, ExecutionResult, FrameText, Plan,
    PollOutcome, WaitState, SWIPE_SECONDS_BITS,
};

#[test]
fn test_execution_result_success() {
    let result = ExecutionResult::success("test message");
    assert!(result.success);
    assert_eq!(result.message, "test message");
    assert!(result.screenshot.is_none());
    assert!(result.data.is_none());
}

#[test]
fn test_execution_result_failure() {
    let result = ExecutionResult::failure("error message");
    assert!(!result.success);
    assert_eq!(result.message, "error message");
}

#[test]
fn test_execution_result_with_screenshot() {
    let result = ExecutionResult::success("ok").with_screenshot("base64data".to_string());
    assert!(result.success);
    assert_eq!(result.screenshot, Some("base64data".to_string()));
}

#[test]
fn test_execution_result_with_data() {
    let result = ExecutionResult::success("ok").with_data("{\"key\": \"value\"}".to_string());
    assert!(result.success);
    assert_eq!(result.data, Some("{\"key\": \"value\"}".to_string()));
}

#[test]
fn plan_picks_the_backend_call() {
    let tap = ActionType::Tap { selector: "login".into(), by_label: false, element_type: None };
    assert!(matches!(plan(&tap), Plan::Call(DriverCall::TapElement { identifier }) if identifier == "login"));
    let tap = ActionType::Tap { selector: "Login".into(), by_label: true, element_type: None };
    assert!(matches!(plan(&tap), Plan::Call(DriverCall::TapByLabel { label }) if label == "Login"));
    let tap = ActionType::Tap {
        selector: "x".into(),
        by_label: true,
        element_type: Some("Button".into()),
    };
    assert!(matches!(
        plan(&tap),
        Plan::Call(DriverCall::TapWithType { by_label: true, ref element_type, .. }) if element_type == "Button"
    ));
    match plan(&ActionType::Swipe { direction: "up".into() }) {
        Plan::Call(DriverCall::Swipe { start_x, start_y, end_x, end_y, duration }) => {
            assert_eq!((start_x, start_y, end_x, end_y), (195, 600, 195, 300));
            assert_eq!(duration, Some(SWIPE_SECONDS_BITS));
            assert_eq!(f64::from_bits(SWIPE_SECONDS_BITS), 0.3);
        }
        other => panic!("unexpected plan {other:?}"),
    }
    match plan(&ActionType::Swipe { direction: "diagonal".into() }) {
        Plan::Finish(r) => {
            assert!(!r.success);
            assert_eq!(r.message, "Invalid swipe direction 'diagonal'. Use: up, down, left, right");
        }
        other => panic!("unexpected plan {other:?}"),
    }
    match plan(&ActionType::TapLocation { x: -1, y: 5 }) {
        Plan::Finish(r) => {
            assert_eq!(r.message, "Coordinates must be non-negative (got x=-1, y=5)")
        }
        other => panic!("unexpected plan {other:?}"),
    }
    match plan(&ActionType::LogComment { message: "hello".into() }) {
        Plan::Finish(r) => {
            assert!(r.success);
            assert_eq!(r.message, "Logged: hello");
        }
        other => panic!("unexpected plan {other:?}"),
    }
    match plan(&ActionType::Quit) {
        Plan::Finish(r) => {
            assert!(!r.success);
            assert_eq!(
                r.message,
                "Session management actions must be handled by the session manager"
            );
        }
        other => panic!("unexpected plan {other:?}"),
    }
    assert!(matches!(
        plan(&ActionType::WaitFor {
            selector: "a".into(),
            by_label: false,
            element_type: None,
            timeout_ms: 10
        }),
        Plan::Poll { appear: true }
    ));
}

#[test]
fn call_results_describe_the_action() {
    let r = tap_result("login", false, Ok(()), Some("shot".into()));
    assert!(r.success);
    assert_eq!(r.message, "Tapped element 'login'");
    assert_eq!(r.screenshot.as_deref(), Some("shot"));
    let r = tap_result("Login", true, Ok(()), None);
    assert_eq!(r.message, "Tapped element with label 'Login'");
    let r = tap_result("x", false, Err(DriverError::CommandFailed("nope".into())), None);
    assert!(!r.success);
    assert_eq!(r.message, "Command failed: nope");
    assert!(r.screenshot.is_none());
    assert_eq!(tap_location_result(10, 20, Ok(()), None).message, "Tapped at (10, 20)");
    assert_eq!(swipe_result("left", Ok(()), None).message, "Swiped left");
    assert_eq!(
        long_press_result(1, 2, "1.5", Ok(()), None).message,
        "Long pressed at (1, 2) for 1.5s"
    );
    assert_eq!(send_keys_result("abc", Ok(()), None).message, "Sent keys: 'abc'");
}

#[test]
fn screenshot_result_encodes_base64() {
    let r = screenshot_result(Ok(vec![1, 2, 3]));
    assert_eq!(r.message, "Screenshot captured");
    assert_eq!(r.screenshot.as_deref(), Some("AQID"));
    assert_eq!(r.data.as_deref(), Some("AQID"));
    assert_eq!(encode_screenshot(b"hello"), "aGVsbG8=");
    let r = screenshot_result(Err(DriverError::Timeout));
    assert_eq!(r.message, "Operation timed out");
}

#[test]
fn screen_info_and_value_results() {
    let r = screen_info_result(Ok(()), Ok("[]".into()), None);
    assert_eq!(r.message, "Screen info retrieved");
    assert_eq!(r.data.as_deref(), Some("[]"));
    let r = screen_info_result(Ok(()), Err("bad".into()), None);
    assert!(!r.success);
    assert_eq!(r.message, "JSON serialization error: bad");
    let r = get_value_result("field", false, Ok(Some("v".into())), None);
    assert_eq!(r.message, "Got value for 'field'");
    assert_eq!(r.data.as_deref(), Some("v"));
    let r = get_value_result("Field", true, Ok(None), None);
    assert_eq!(r.message, "Element with label 'Field' has no value");
    assert_eq!(r.data.as_deref(), Some("null"));
}

fn frame(x: f64) -> ElementFrame {
    ElementFrame {
        x: x.to_bits(),
        y: 0f64.to_bits(),
        width: 10f64.to_bits(),
        height: 10f64.to_bits(),
    }
}

#[test]
fn wait_requires_three_stable_polls() {
    let mut s = WaitState::new();
    assert!(!s.step(PollOutcome::Present(Some(frame(1.0)))));
    assert!(!s.step(PollOutcome::Present(Some(frame(2.0)))));
    assert!(!s.step(PollOutcome::Present(Some(frame(2.0)))));
    assert!(s.step(PollOutcome::Present(Some(frame(2.0)))));

    let mut s = WaitState::new();
    assert!(!s.step(PollOutcome::Present(Some(frame(0.0)))));
    assert!(!s.step(PollOutcome::Present(Some(frame(-0.0)))));
    assert!(!s.step(PollOutcome::Failed));
    assert!(s.step(PollOutcome::Present(Some(frame(0.0)))));

    let mut s = WaitState::new();
    assert!(!s.step(PollOutcome::Present(Some(frame(f64::NAN)))));
    assert!(!s.step(PollOutcome::Present(Some(frame(f64::NAN)))));
    assert!(!s.step(PollOutcome::Present(Some(frame(f64::NAN)))));
    assert!(!s.step(PollOutcome::Absent));
    assert!(s.step(PollOutcome::Present(None)));
}

#[test]
fn wait_results() {
    assert!(wait_timed_out(100, 100));
    assert!(!wait_timed_out(99, 100));
    let r = wait_found_result("ok-button", false, 42, None, None);
    assert_eq!(r.message, "Element 'ok-button' found");
    assert_eq!(r.data.as_deref(), Some("{\"elapsed_ms\":42}"));
    let text = FrameText { x: "1".into(), y: "2.5".into(), width: "3".into(), height: "4".into() };
    let r = wait_found_result("OK", true, 7, Some(text), None);
    assert_eq!(r.message, "Element with label 'OK' found");
    assert_eq!(
        r.data.as_deref(),
        Some("{\"elapsed_ms\":7,\"frame\":{\"x\":1,\"y\":2.5,\"width\":3,\"height\":4}}")
    );
    let r = wait_timeout_result("ok-button", false, 5001);
    assert!(!r.success);
    assert_eq!(r.message, "Timeout after 5001ms waiting for element 'ok-button'");
    assert_eq!(r.data.as_deref(), Some("{\"elapsed_ms\":5001}"));
    let r = wait_gone_result("spinner", false, 3, None);
    assert!(r.success);
    let r = wait_not_timeout_result("spinner", true, 9);
    assert_eq!(r.message, "Timeout after 9ms waiting for element with label 'spinner' to disappear");
}

#[test]
fn screenshots_follow_ui_actions_only() {
    assert!(wants_screenshot(&ActionType::SendKeys { text: "a".into() }));
    assert!(!wants_screenshot(&ActionType::GetScreenshot));
    assert!(!wants_screenshot(&ActionType::LogComment { message: "m".into() }));
}

#[test]
fn capture_policy_decides_screenshots() {
    let tap = ActionType::Tap { selector: "login".into(), by_label: false, element_type: None };
    let mut p = CapturePolicy::new();
    assert!(p.capture_screenshots);
    assert!(p.should_capture(&tap, true));
    assert!(!p.should_capture(&tap, false));
    assert!(!p.should_capture(&ActionType::GetScreenshot, true));
    assert!(!p.should_capture(&ActionType::LogComment { message: "m".into() }, true));
    p.set_capture_screenshots(false);
    assert!(!p.should_capture(&tap, true));
    assert!(!p.should_capture(&ActionType::TapLocation { x: 1, y: 2 }, true));
}

#[test]
fn screenshot_encoding_vectors() {
    assert_eq!(encode_screenshot(&[137, 80, 78, 71]), "iVBORw==");
    assert_eq!(encode_screenshot(&[255, 255]), "//8=");
    assert_eq!(encode_screenshot(&[251, 239, 190]), "++++");
    assert_eq!(encode_screenshot(&[]), "");
}
