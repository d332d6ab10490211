use qorvex_core::action::{ActionResult, ActionType};
use qorvex_core::executor::ExecutionResult;
use qorvex_core::ipc::{
    builtin_step, comment_reply, logged_duration_ms, logged_result, no_backend_text,
    socket_path, unsupported_text, BuiltinStep, IpcRequest,
};

#[test]
fn socket_path_follows_naming_pattern() {
    assert_eq!(socket_path("/home/u/.qorvex", "my-session"), "/home/u/.qorvex/qorvex_my-session.sock");
}

#[test]
fn builtin_handler_routes_requests() {
    let comment = IpcRequest::Execute { action: ActionType::LogComment { message: "hi".into() } };
    assert!(matches!(builtin_step(comment, false), BuiltinStep::LogComment { message, .. } if message == "hi"));
    let tap = IpcRequest::Execute { action: ActionType::GetScreenshot };
    assert!(matches!(builtin_step(tap.clone(), false), BuiltinStep::NoBackend));
    assert!(matches!(builtin_step(tap, true), BuiltinStep::Execute(ActionType::GetScreenshot)));
    assert!(matches!(builtin_step(IpcRequest::Subscribe, false), BuiltinStep::Subscribe));
    assert!(matches!(builtin_step(IpcRequest::GetState, false), BuiltinStep::SendState));
    assert!(matches!(builtin_step(IpcRequest::GetLog, false), BuiltinStep::SendLog));
    assert!(matches!(builtin_step(IpcRequest::Shutdown, true), BuiltinStep::Unsupported));
    assert_eq!(no_backend_text(), "No automation backend connected for this session");
    assert_eq!(
        unsupported_text(),
        "This server does not support management commands. Use qorvex-server instead."
    );
    assert_eq!(comment_reply("note"), "Logged: note");
}

#[test]
fn executed_actions_are_logged_with_their_outcome() {
    assert!(matches!(logged_result(&ExecutionResult::success("ok")), ActionResult::Success));
    match logged_result(&ExecutionResult::failure("bad")) {
        ActionResult::Failure(m) => assert_eq!(m, "bad"),
        other => panic!("expected Failure, got {other:?}"),
    }
}

#[test]
fn logged_duration_reads_elapsed_member() {
    assert_eq!(logged_duration_ms(Some("{\"elapsed_ms\":42,\"frame\":{}}")), Some(42));
    assert_eq!(logged_duration_ms(Some("{\"other\":1}")), None);
    assert_eq!(logged_duration_ms(Some("not json")), None);
    assert_eq!(logged_duration_ms(None), None);
}
