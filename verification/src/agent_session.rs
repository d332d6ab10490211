//! The transport-independent rules of an agent session: how agent-connection
//! errors map to driver errors, which errors call for a recovery, and which
//! response each request expects.

use vstd::prelude::*;
use crate::agent_client::AgentClientError;
use crate::driver::DriverError;
use crate::protocol::{protocol_error_message, Response, ResponseView};
use crate::text::{dec, push_dec, push_str, starts_with};

verus! {

/// Milliseconds added to a request's own timeout to get the socket read
/// deadline, so the host always waits longer than the agent's retry window.
pub const READ_TIMEOUT_PADDING_MS: u64 = 15_000;

/// Read deadline in milliseconds for a tree dump: large hierarchies take long
/// to snapshot.
pub const DUMP_TREE_TIMEOUT_MS: u64 = 120_000;

/// Maps an agent-connection error to a driver error: a failed connection is
/// a lost connection, protocol and agent errors are failed commands (with the
/// protocol error's text, or the agent's message), and the rest keep their
/// kind.
pub fn map_client_error(err: AgentClientError) -> (r: DriverError)
    ensures
        match err {
            AgentClientError::NotConnected => r is NotConnected,
            AgentClientError::ConnectionFailed(m) => r matches DriverError::ConnectionLost(x) && x@
                == m@,
            AgentClientError::Io(e) => r == DriverError::Io(e),
            AgentClientError::Protocol(p) => r matches DriverError::CommandFailed(x) && x@
                == protocol_error_message(p@),
            AgentClientError::AgentError(m) => r matches DriverError::CommandFailed(x) && x@ == m@,
            AgentClientError::Timeout => r is Timeout,
        },
{
    match err {
        AgentClientError::NotConnected => DriverError::NotConnected,
        AgentClientError::ConnectionFailed(msg) => DriverError::ConnectionLost(msg),
        AgentClientError::Io(e) => DriverError::Io(e),
        AgentClientError::Protocol(e) => DriverError::CommandFailed(e.message()),
        AgentClientError::AgentError(msg) => DriverError::CommandFailed(msg),
        AgentClientError::Timeout => DriverError::Timeout,
    }
}

/// The `Debug` rendering of a string: quoted, with its special characters
/// escaped (`<str as Debug>::fmt`).
pub uninterp spec fn str_debug(s: Seq<char>) -> Seq<char>;

/// The `Debug` rendering of a string (`format!("{:?}", s)`).
///
/// The text is named rather than spelled out: its escaping rules are those
/// of the standard library's `char::escape_debug`.
#[verifier::external_body]
fn str_debug_text(s: &str) -> (r: String)
    ensures
        r@ == str_debug(s@),
{
    format!("{:?}", s)
}

/// The bytes in decimal, separated by `", "`.
pub open spec fn byte_list(b: Seq<u8>) -> Seq<char>
    decreases b.len(),
{
    if b.len() == 0 {
        Seq::empty()
    } else if b.len() == 1 {
        dec(b[0] as nat)
    } else {
        byte_list(b.drop_last()) + ", "@ + dec(b.last() as nat)
    }
}

/// The `Debug` rendering of an optional string.
pub open spec fn opt_str_debug(o: Option<Seq<char>>) -> Seq<char> {
    match o {
        Some(v) => "Some("@ + str_debug(v) + ")"@,
        None => "None"@,
    }
}

/// The `Debug` rendering of a response, as the agent protocol names its
/// variants (a plain success is `Ok`).
pub open spec fn response_debug(r: ResponseView) -> Seq<char> {
    match r {
        ResponseView::Success => "Ok"@,
        ResponseView::Error { message } => "Error { message: "@ + str_debug(message) + " }"@,
        ResponseView::Tree { json } => "Tree { json: "@ + str_debug(json) + " }"@,
        ResponseView::Screenshot { data } => "Screenshot { data: ["@ + byte_list(data) + "] }"@,
        ResponseView::Value { value } => "Value { value: "@ + opt_str_debug(value) + " }"@,
        ResponseView::Element { json } => "Element { json: "@ + str_debug(json) + " }"@,
    }
}

fn push_byte_list(m: &mut String, data: &[u8])
    ensures
        final(m)@ == old(m)@ + byte_list(data@),
{
    let mut i: usize = 0;
    while i < data.len()
        invariant
            i <= data@.len(),
            m@ == old(m)@ + byte_list(data@.take(i as int)),
        decreases data@.len() - i,
    {
        let ghost before = m@;
        if i > 0 {
            push_str(m, ", ");
        }
        push_dec(m, data[i] as u64);
        proof {
            let t = data@.take(i as int + 1);
            assert(t.drop_last() =~= data@.take(i as int));
            assert(t.last() == data@[i as int]);
            if i == 0 {
                assert(data@.take(0) =~= Seq::<u8>::empty());
                assert(m@ =~= old(m)@ + byte_list(t));
            } else {
                assert(m@ =~= old(m)@ + byte_list(t));
            }
        }
        i = i + 1;
    }
    assert(data@.take(data@.len() as int) =~= data@);
}

/// The `Debug` text of a response (see [`response_debug`]).
pub fn response_debug_text(response: &Response) -> (r: String)
    ensures
        r@ == response_debug(response@),
{
    let mut m = String::new();
    match response {
        Response::Success => push_str(&mut m, "Ok"),
        Response::Error { message } => {
            push_str(&mut m, "Error { message: ");
            push_str(&mut m, str_debug_text(message.as_str()).as_str());
            push_str(&mut m, " }");
        },
        Response::Tree { json } => {
            push_str(&mut m, "Tree { json: ");
            push_str(&mut m, str_debug_text(json.as_str()).as_str());
            push_str(&mut m, " }");
        },
        Response::Screenshot { data } => {
            push_str(&mut m, "Screenshot { data: [");
            push_byte_list(&mut m, data.as_slice());
            push_str(&mut m, "] }");
        },
        Response::Value { value } => {
            push_str(&mut m, "Value { value: ");
            match value {
                Some(v) => {
                    push_str(&mut m, "Some(");
                    push_str(&mut m, str_debug_text(v.as_str()).as_str());
                    push_str(&mut m, ")");
                },
                None => push_str(&mut m, "None"),
            }
            push_str(&mut m, " }");
        },
        Response::Element { json } => {
            push_str(&mut m, "Element { json: ");
            push_str(&mut m, str_debug_text(json.as_str()).as_str());
            push_str(&mut m, " }");
        },
    }
    assert(m@ =~= Seq::<char>::empty() + response_debug(response@));
    m
}

/// The error text for a response of the wrong kind.
pub open spec fn unexpected_message(r: ResponseView) -> Seq<char> {
    "unexpected response: "@ + response_debug(r)
}

/// `m` reports an unexpected response.
pub open spec fn is_unexpected_message(m: Seq<char>) -> bool {
    starts_with(m, "unexpected response: "@)
}

/// The error for a response of the wrong kind.
fn unexpected(response: &Response) -> (r: DriverError)
    ensures
        r matches DriverError::CommandFailed(m) && m@ == unexpected_message(response@)
            && is_unexpected_message(m@),
{
    let mut m = String::from_str("unexpected response: ");
    let ghost pre = m@;
    let t = response_debug_text(response);
    push_str(&mut m, t.as_str());
    assert(m@.subrange(0, pre.len() as int) =~= pre);
    DriverError::CommandFailed(m)
}

/// Checks that the response is a plain success.
pub fn expect_ok(response: Response) -> (r: Result<(), DriverError>)
    ensures
        response is Success <==> r is Ok,
        !(response is Success) ==> (r matches Err(DriverError::CommandFailed(m)) && m@
            == unexpected_message(response@)),
{
    match response {
        Response::Success => Ok(()),
        other => Err(unexpected(&other)),
    }
}

/// Takes the JSON tree out of a tree response.
pub fn expect_tree(response: Response) -> (r: Result<String, DriverError>)
    ensures
        match response {
            Response::Tree { json } => r == Ok::<String, DriverError>(json),
            _ => r matches Err(DriverError::CommandFailed(m)) && m@ == unexpected_message(response@),
        },
{
    match response {
        Response::Tree { json } => Ok(json),
        other => Err(unexpected(&other)),
    }
}

/// Takes the value out of a value response.
pub fn expect_value(response: Response) -> (r: Result<Option<String>, DriverError>)
    ensures
        match response {
            Response::Value { value } => r == Ok::<Option<String>, DriverError>(value),
            _ => r matches Err(DriverError::CommandFailed(m)) && m@ == unexpected_message(response@),
        },
{
    match response {
        Response::Value { value } => Ok(value),
        other => Err(unexpected(&other)),
    }
}

/// Takes the image bytes out of a screenshot response.
pub fn expect_screenshot(response: Response) -> (r: Result<Vec<u8>, DriverError>)
    ensures
        match response {
            Response::Screenshot { data } => r == Ok::<Vec<u8>, DriverError>(data),
            _ => r matches Err(DriverError::CommandFailed(m)) && m@ == unexpected_message(response@),
        },
{
    match response {
        Response::Screenshot { data } => Ok(data),
        other => Err(unexpected(&other)),
    }
}

/// Takes the JSON element (or `null`) out of an element response.
pub fn expect_element(response: Response) -> (r: Result<String, DriverError>)
    ensures
        match response {
            Response::Element { json } => r == Ok::<String, DriverError>(json),
            _ => r matches Err(DriverError::CommandFailed(m)) && m@ == unexpected_message(response@),
        },
{
    match response {
        Response::Element { json } => Ok(json),
        other => Err(unexpected(&other)),
    }
}

/// What the agent reports about the target application; each field is
/// empty when the agent leaves it out.
#[derive(Debug, Clone)]
pub struct AgentTargetInfo {
    pub state: String,
    pub display_name: String,
    pub version: String,
    pub build: String,
    pub bundle_id: String,
}

/// Information about the target application.
#[derive(Debug, Clone)]
pub struct TargetInfo {
    pub bundle_id: String,
    pub display_name: String,
    pub version: String,
    pub build: String,
    pub state: String,
}

/// The target's bundle id: the agent's, else the one the session set.
pub open spec fn target_bundle_id(reported: Seq<char>, session_bundle_id: Option<Seq<char>>) -> Seq<char> {
    if reported.len() > 0 {
        reported
    } else {
        match session_bundle_id {
            Some(t) => t,
            None => Seq::empty(),
        }
    }
}

/// The target information from the agent's report and the bundle id the
/// session last set: the agent's fields as reported, with the session's
/// bundle id (or an empty one) standing in when the agent leaves it out.
pub fn target_info(reported: AgentTargetInfo, session_bundle_id: Option<String>) -> (r: TargetInfo)
    ensures
        r.bundle_id@ == target_bundle_id(
            reported.bundle_id@,
            match session_bundle_id {
                Some(t) => Some(t@),
                None => None,
            },
        ),
        r.display_name@ == reported.display_name@,
        r.version@ == reported.version@,
        r.build@ == reported.build@,
        r.state@ == reported.state@,
{
    let bundle_id = if reported.bundle_id.unicode_len() > 0 {
        reported.bundle_id
    } else {
        match session_bundle_id {
            Some(t) => t,
            None => String::new(),
        }
    };
    TargetInfo {
        bundle_id,
        display_name: reported.display_name,
        version: reported.version,
        build: reported.build,
        state: reported.state,
    }
}

/// The errors that mean a broken connection, which a recovery may fix.
pub open spec fn connection_error(e: DriverError) -> bool {
    e is NotConnected || e is ConnectionLost || e is Io || e is Timeout
}

/// Whether the error indicates a broken connection.
pub fn is_connection_error(err: &DriverError) -> (r: bool)
    ensures
        r == connection_error(*err),
{
    match err {
        DriverError::NotConnected | DriverError::ConnectionLost(_) | DriverError::Io(_)
        | DriverError::Timeout => true,
        _ => false,
    }
}

/// Whether a failed request is retried after a recovery: only a connection
/// error, and only when the transport recovers at all.
pub fn should_recover(err: &DriverError, recovery_enabled: bool) -> (r: bool)
    ensures
        r == (connection_error(*err) && recovery_enabled),
{
    is_connection_error(err) && recovery_enabled
}

/// The socket read deadline in milliseconds for a request that carries its
/// own timeout: the timeout plus [`READ_TIMEOUT_PADDING_MS`].
pub fn read_deadline_ms(timeout_ms: u64) -> (r: u64)
    requires
        timeout_ms + READ_TIMEOUT_PADDING_MS <= u64::MAX,
    ensures
        r == timeout_ms + READ_TIMEOUT_PADDING_MS,
{
    timeout_ms + READ_TIMEOUT_PADDING_MS
}

} // verus!
