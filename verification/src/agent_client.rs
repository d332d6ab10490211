//! Errors of the agent connection, and how a reply frame from the agent is
//! read into a response.

use vstd::prelude::*;
use crate::io_error::io_error_text;
use crate::protocol::{
    decode_response, protocol_error_message, spec_decode_response, ProtocolError,
    ProtocolErrorView, Response, ResponseView,
};
use crate::text::{push_str, starts_with};

verus! {

/// Errors that can occur during agent communication.
#[derive(Debug)]
pub enum AgentClientError {
    /// Attempted to send a request without an active connection.
    NotConnected,
    /// Failed to establish a TCP connection.
    ConnectionFailed(String),
    /// An I/O error occurred on the stream.
    Io(std::io::Error),
    /// The response could not be decoded according to the protocol.
    Protocol(ProtocolError),
    /// The remote agent returned an error response.
    AgentError(String),
    /// A read or connect operation exceeded its timeout.
    Timeout,
}

/// The text of an agent-communication error; for an I/O error, the prefix
/// before the platform's own text.
pub open spec fn agent_client_error_message(e: AgentClientError) -> Seq<char> {
    match e {
        AgentClientError::NotConnected => "not connected to agent"@,
        AgentClientError::ConnectionFailed(m) => "connection failed: "@ + m@,
        AgentClientError::Io(_) => "I/O error: "@,
        AgentClientError::Protocol(p) => "protocol error: "@ + protocol_error_message(p@),
        AgentClientError::AgentError(m) => "agent error: "@ + m@,
        AgentClientError::Timeout => "operation timed out"@,
    }
}

impl AgentClientError {
    /// The human-readable description of the error.
    pub fn message(&self) -> (r: String)
        ensures
            self is Io ==> starts_with(r@, agent_client_error_message(*self)),
            !(self is Io) ==> r@ == agent_client_error_message(*self),
    {
        match self {
            AgentClientError::NotConnected => String::from_str("not connected to agent"),
            AgentClientError::ConnectionFailed(m) => {
                let mut s = String::from_str("connection failed: ");
                push_str(&mut s, m.as_str());
                s
            },
            AgentClientError::Io(err) => {
                let mut s = String::from_str("I/O error: ");
                let ghost pre = s@;
                let t = io_error_text(err);
                push_str(&mut s, t.as_str());
                assert(s@.subrange(0, pre.len() as int) =~= pre);
                s
            },
            AgentClientError::Protocol(p) => {
                let mut s = String::from_str("protocol error: ");
                let t = p.message();
                push_str(&mut s, t.as_str());
                s
            },
            AgentClientError::AgentError(m) => {
                let mut s = String::from_str("agent error: ");
                push_str(&mut s, m.as_str());
                s
            },
            AgentClientError::Timeout => String::from_str("operation timed out"),
        }
    }
}

/// What a reply payload means to the sender: the decoded response, an
/// agent-reported error, or the decoding error.
pub open spec fn reply_meaning(payload: Seq<u8>) -> Result<ResponseView, Result<Seq<char>, ProtocolErrorView>> {
    match spec_decode_response(payload) {
        Err(e) => Err(Err(e)),
        Ok(ResponseView::Error { message }) => Err(Ok(message)),
        Ok(r) => Ok(r),
    }
}

/// The view of the outcome of [`read_reply`]: a response, the agent's error
/// message, or a protocol error.
pub open spec fn reply_view(r: Result<Response, AgentClientError>) -> Option<Result<ResponseView, Result<Seq<char>, ProtocolErrorView>>> {
    match r {
        Ok(v) => Some(Ok(v@)),
        Err(AgentClientError::AgentError(m)) => Some(Err(Ok(m@))),
        Err(AgentClientError::Protocol(p)) => Some(Err(Err(p@))),
        Err(_) => None,
    }
}

/// Reads a reply payload (the frame without its length header): an `Error`
/// response becomes [`AgentClientError::AgentError`], so that every failure
/// reaches the caller as an error.
pub fn read_reply(payload: &[u8]) -> (r: Result<Response, AgentClientError>)
    ensures
        reply_view(r) == Some(reply_meaning(payload@)),
{
    match decode_response(payload) {
        Err(e) => Err(AgentClientError::Protocol(e)),
        Ok(Response::Error { message }) => Err(AgentClientError::AgentError(message)),
        Ok(other) => Ok(other),
    }
}

} // verus!
