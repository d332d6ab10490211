//! The inter-process protocol between the server and its clients: the
//! requests, where a session's socket lives, and how the built-in request
//! handler answers each request.
//!
//! Reading and writing the JSON lines, and the socket itself, are left to
//! the caller.

use vstd::prelude::*;
use crate::action::{ActionResult, ActionType};
use crate::executor::ExecutionResult;
use crate::text::{join_path, join_path_exec, push_str};

verus! {

/// A request sent from a client to the server.
#[derive(Debug, Clone)]
pub enum IpcRequest {
    /// Execute an action on the device.
    Execute { action: ActionType },
    /// Subscribe to session events.
    Subscribe,
    /// Request the current session state.
    GetState,
    /// Request the action log history.
    GetLog,
    /// Start a new automation session.
    StartSession,
    /// End the current session.
    EndSession,
    /// List available simulator devices.
    ListDevices,
    /// Select a simulator device by UDID.
    UseDevice { udid: String },
    /// Boot a simulator device.
    BootDevice { udid: String },
    /// Start or connect to the automation agent.
    StartAgent { project_dir: Option<String> },
    /// Stop the managed agent process.
    StopAgent,
    /// Connect to an agent at a specific host and port.
    Connect { host: String, port: u16 },
    /// Set the target app bundle ID.
    SetTarget { bundle_id: String },
    /// Set the default wait timeout in milliseconds.
    SetTimeout { timeout_ms: u64 },
    /// Get the current default wait timeout.
    GetTimeout,
    /// Start the screen change watcher.
    StartWatcher { interval_ms: Option<u64> },
    /// Stop the screen change watcher.
    StopWatcher,
    /// Get current session information.
    GetSessionInfo,
    /// Get cached elements and devices for client-side completion.
    GetCompletionData,
    /// Ask the server to shut down cleanly.
    Shutdown,
}

/// The socket file name of a session: `qorvex_<name>.sock`.
pub open spec fn socket_file_name(session_name: Seq<char>) -> Seq<char> {
    "qorvex_"@ + session_name + ".sock"@
}

/// The Unix socket path of a session, inside the qorvex directory
/// (`~/.qorvex`).
pub fn socket_path(qorvex_dir: &str, session_name: &str) -> (r: String)
    ensures
        r@ == join_path(qorvex_dir@, socket_file_name(session_name@)),
{
    let mut name = String::from_str("qorvex_");
    push_str(&mut name, session_name);
    push_str(&mut name, ".sock");
    join_path_exec(qorvex_dir, name.as_str())
}

/// What the built-in handler does for a request.
#[derive(Debug)]
pub enum BuiltinStep {
    /// Log the comment as a successful action and answer with a successful
    /// action result `Logged: <message>`, without the backend.
    LogComment { action: ActionType, message: String },
    /// Run the action on the backend, log it, and answer with its result.
    Execute(ActionType),
    /// Answer with an error: there is no backend.
    NoBackend,
    /// Stream session events until the client goes away.
    Subscribe,
    /// Answer with the session state.
    SendState,
    /// Answer with the action log.
    SendLog,
    /// Answer with an error: management commands are not supported here.
    Unsupported,
}

/// The error text when no backend is connected.
pub open spec fn no_backend_message() -> Seq<char> {
    "No automation backend connected for this session"@
}

/// The error text for a management command.
pub open spec fn unsupported_message() -> Seq<char> {
    "This server does not support management commands. Use qorvex-server instead."@
}

/// How the built-in handler answers a request: comments are logged without
/// the backend, other actions need one; subscriptions, state and log have
/// their own answers; every management command is refused.
pub fn builtin_step(request: IpcRequest, has_driver: bool) -> (r: BuiltinStep)
    ensures
        match request {
            IpcRequest::Execute { action } => match action {
                ActionType::LogComment { message } => r matches BuiltinStep::LogComment {
                    action: a,
                    message: m,
                } && a == action && m@ == message@,
                _ => if has_driver {
                    r == BuiltinStep::Execute(action)
                } else {
                    r is NoBackend
                },
            },
            IpcRequest::Subscribe => r is Subscribe,
            IpcRequest::GetState => r is SendState,
            IpcRequest::GetLog => r is SendLog,
            _ => r is Unsupported,
        },
{
    match request {
        IpcRequest::Execute { action } => {
            let comment = match &action {
                ActionType::LogComment { message } => Some(message.clone()),
                _ => None,
            };
            match comment {
                Some(message) => BuiltinStep::LogComment { action, message },
                None => if has_driver {
                    BuiltinStep::Execute(action)
                } else {
                    BuiltinStep::NoBackend
                },
            }
        },
        IpcRequest::Subscribe => BuiltinStep::Subscribe,
        IpcRequest::GetState => BuiltinStep::SendState,
        IpcRequest::GetLog => BuiltinStep::SendLog,
        _ => BuiltinStep::Unsupported,
    }
}

/// The error text when no backend is connected.
pub fn no_backend_text() -> (r: String)
    ensures
        r@ == no_backend_message(),
{
    String::from_str("No automation backend connected for this session")
}

/// The error text for a management command.
pub fn unsupported_text() -> (r: String)
    ensures
        r@ == unsupported_message(),
{
    String::from_str(
        "This server does not support management commands. Use qorvex-server instead.",
    )
}

/// The message answered for a logged comment.
pub fn comment_reply(message: &str) -> (r: String)
    ensures
        r@ == "Logged: "@ + message@,
{
    let mut s = String::from_str("Logged: ");
    push_str(&mut s, message);
    s
}

/// How an executed action is logged: a success, or a failure with the
/// result's message.
pub fn logged_result(result: &ExecutionResult) -> (r: ActionResult)
    ensures
        result.success ==> r is Success,
        !result.success ==> (r matches ActionResult::Failure(m) && m@ == result.message@),
{
    if result.success {
        ActionResult::Success
    } else {
        ActionResult::Failure(result.message.clone())
    }
}

/// The unsigned integer member `key` of the JSON object that `text` is, as
/// `serde_json` reads it; absent when `text` is not JSON, not an object, has
/// no such member, or the member is not an unsigned integer.
pub uninterp spec fn json_u64_member(text: Seq<char>, key: Seq<char>) -> Option<u64>;

/// Reads a top-level unsigned member of a JSON text with `serde_json`
/// (`from_str::<Value>`, then `Value::get`, then `Value::as_u64`); the result
/// is [`json_u64_member`] of the text and key.
#[verifier::external_body]
fn json_u64_member_of(text: &str, key: &str) -> (r: Option<u64>)
    ensures
        r == json_u64_member(text@, key@),
{
    let value: serde_json::Value = serde_json::from_str(text).ok()?;
    value.get(key)?.as_u64()
}

/// The duration logged for an executed action: the `elapsed_ms` member of
/// its JSON data, when there is one.
pub fn logged_duration_ms(data: Option<&str>) -> (r: Option<u64>)
    ensures
        match data {
            Some(d) => r == json_u64_member(d@, "elapsed_ms"@),
            None => r is None,
        },
{
    match data {
        Some(d) => json_u64_member_of(d, "elapsed_ms"),
        None => None,
    }
}

} // verus!
