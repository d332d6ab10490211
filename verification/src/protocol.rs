//! Binary wire protocol between the host and the on-device automation agent.
//!
//! A frame is `[u32 LE length][opcode byte][payload]`, where the length counts
//! the opcode and payload but not the 4-byte header. Strings are a `u32` LE
//! byte count followed by UTF-8 bytes; optional fields carry a presence byte
//! (`0` = absent). Durations travel as the 8 little-endian bytes of an IEEE-754
//! `f64`; this library carries them as that bit pattern (`u64`).

use vstd::prelude::*;
use vstd::utf8::*;
use crate::bytes::{
    enc_bool, enc_bytes, enc_opt_str, enc_str, le_i32, le_u32, le_u64, lemma_i32_roundtrip,
    lemma_u32_roundtrip, lemma_u64_roundtrip, opt_str_fits, push_all, push_i32_le, push_u32_le,
    push_u64_le, str_fits, u32_from_le, u64_from_halves,
};
use crate::text::{hex_byte, push_hex_byte};

verus! {

broadcast use vstd::utf8::encode_utf8_valid_utf8, vstd::utf8::encode_utf8_decode_utf8;

// ---------------------------------------------------------------------------
// Errors
// ---------------------------------------------------------------------------

/// Errors that can occur while decoding protocol messages.
#[derive(Debug, PartialEq, Eq)]
pub enum ProtocolError {
    /// The opcode byte does not correspond to any known operation.
    InvalidOpCode(u8),
    /// The buffer does not contain enough bytes for the expected data.
    InsufficientData,
    /// A string field contains invalid UTF-8.
    Utf8Error,
    /// The payload structure is invalid for the given opcode.
    InvalidPayload(String),
}

/// The mathematical form of a [`ProtocolError`].
pub enum ProtocolErrorView {
    InvalidOpCode(u8),
    InsufficientData,
    Utf8Error,
    InvalidPayload(Seq<char>),
}

impl View for ProtocolError {
    type V = ProtocolErrorView;

    open spec fn view(&self) -> ProtocolErrorView {
        match self {
            ProtocolError::InvalidOpCode(b) => ProtocolErrorView::InvalidOpCode(*b),
            ProtocolError::InsufficientData => ProtocolErrorView::InsufficientData,
            ProtocolError::Utf8Error => ProtocolErrorView::Utf8Error,
            ProtocolError::InvalidPayload(m) => ProtocolErrorView::InvalidPayload(m@),
        }
    }
}

impl ProtocolError {
    /// The human-readable description of the error.
    pub fn message(&self) -> (r: String)
        ensures
            r@ == protocol_error_message(self@),
    {
        match self {
            ProtocolError::InvalidOpCode(b) => {
                let mut s = String::from_str("invalid opcode: 0x");
                push_hex_byte(&mut s, *b);
                s
            },
            ProtocolError::InsufficientData => String::from_str("insufficient data in buffer"),
            ProtocolError::Utf8Error => String::from_str("invalid UTF-8 in string field"),
            ProtocolError::InvalidPayload(m) => {
                let mut s = String::from_str("invalid payload: ");
                s.append(m.as_str());
                s
            },
        }
    }
}

/// The text that describes a protocol error.
pub open spec fn protocol_error_message(e: ProtocolErrorView) -> Seq<char> {
    match e {
        ProtocolErrorView::InvalidOpCode(b) => "invalid opcode: 0x"@ + hex_byte(b),
        ProtocolErrorView::InsufficientData => "insufficient data in buffer"@,
        ProtocolErrorView::Utf8Error => "invalid UTF-8 in string field"@,
        ProtocolErrorView::InvalidPayload(m) => "invalid payload: "@ + m,
    }
}

// ---------------------------------------------------------------------------
// OpCode
// ---------------------------------------------------------------------------

/// On-the-wire operation codes.
#[derive(Debug, Clone, Copy, PartialEq, Eq, Structural)]
pub enum OpCode {
    /// Keep-alive ping (no payload). Byte `0x01`.
    Heartbeat,
    /// Tap at absolute coordinates (i32 x, i32 y). Byte `0x02`.
    TapCoord,
    /// Tap element by accessibility identifier. Byte `0x03`.
    TapElement,
    /// Tap element by accessibility label. Byte `0x04`.
    TapByLabel,
    /// Tap with element type filter. Byte `0x05`.
    TapWithType,
    /// Type text via keyboard. Byte `0x06`.
    TypeText,
    /// Swipe gesture. Byte `0x07`.
    Swipe,
    /// Get the current value of an element. Byte `0x08`.
    GetValue,
    /// Long press at coordinates. Byte `0x09`.
    LongPress,
    /// Full accessibility tree dump. Byte `0x10`.
    DumpTree,
    /// Screenshot capture. Byte `0x11`.
    Screenshot,
    /// Set the target application. Byte `0x12`.
    SetTarget,
    /// Find a single element. Byte `0x13`.
    FindElement,
    /// Error message from the agent. Byte `0x99`.
    Error,
    /// Generic response. Byte `0xA0`.
    Response,
}

/// The byte that stands for each opcode on the wire.
pub open spec fn opcode_byte(op: OpCode) -> u8 {
    match op {
        OpCode::Heartbeat => 0x01,
        OpCode::TapCoord => 0x02,
        OpCode::TapElement => 0x03,
        OpCode::TapByLabel => 0x04,
        OpCode::TapWithType => 0x05,
        OpCode::TypeText => 0x06,
        OpCode::Swipe => 0x07,
        OpCode::GetValue => 0x08,
        OpCode::LongPress => 0x09,
        OpCode::DumpTree => 0x10,
        OpCode::Screenshot => 0x11,
        OpCode::SetTarget => 0x12,
        OpCode::FindElement => 0x13,
        OpCode::Error => 0x99,
        OpCode::Response => 0xA0,
    }
}

/// The opcode that a byte stands for, if any.
pub open spec fn opcode_of(b: u8) -> Option<OpCode> {
    if b == 0x01 {
        Some(OpCode::Heartbeat)
    } else if b == 0x02 {
        Some(OpCode::TapCoord)
    } else if b == 0x03 {
        Some(OpCode::TapElement)
    } else if b == 0x04 {
        Some(OpCode::TapByLabel)
    } else if b == 0x05 {
        Some(OpCode::TapWithType)
    } else if b == 0x06 {
        Some(OpCode::TypeText)
    } else if b == 0x07 {
        Some(OpCode::Swipe)
    } else if b == 0x08 {
        Some(OpCode::GetValue)
    } else if b == 0x09 {
        Some(OpCode::LongPress)
    } else if b == 0x10 {
        Some(OpCode::DumpTree)
    } else if b == 0x11 {
        Some(OpCode::Screenshot)
    } else if b == 0x12 {
        Some(OpCode::SetTarget)
    } else if b == 0x13 {
        Some(OpCode::FindElement)
    } else if b == 0x99 {
        Some(OpCode::Error)
    } else if b == 0xA0 {
        Some(OpCode::Response)
    } else {
        None
    }
}

impl OpCode {
    /// Try to convert a raw byte into an `OpCode`.
    pub fn from_u8(byte: u8) -> (r: Result<OpCode, ProtocolError>)
        ensures
            match opcode_of(byte) {
                Some(op) => r == Ok::<OpCode, ProtocolError>(op),
                None => r == Err::<OpCode, ProtocolError>(ProtocolError::InvalidOpCode(byte)),
            },
    {
        match byte {
            0x01 => Ok(OpCode::Heartbeat),
            0x02 => Ok(OpCode::TapCoord),
            0x03 => Ok(OpCode::TapElement),
            0x04 => Ok(OpCode::TapByLabel),
            0x05 => Ok(OpCode::TapWithType),
            0x06 => Ok(OpCode::TypeText),
            0x07 => Ok(OpCode::Swipe),
            0x08 => Ok(OpCode::GetValue),
            0x09 => Ok(OpCode::LongPress),
            0x10 => Ok(OpCode::DumpTree),
            0x11 => Ok(OpCode::Screenshot),
            0x12 => Ok(OpCode::SetTarget),
            0x13 => Ok(OpCode::FindElement),
            0x99 => Ok(OpCode::Error),
            0xA0 => Ok(OpCode::Response),
            other => Err(ProtocolError::InvalidOpCode(other)),
        }
    }

    /// The byte that stands for this opcode on the wire.
    pub fn to_u8(self) -> (r: u8)
        ensures
            r == opcode_byte(self),
    {
        match self {
            OpCode::Heartbeat => 0x01,
            OpCode::TapCoord => 0x02,
            OpCode::TapElement => 0x03,
            OpCode::TapByLabel => 0x04,
            OpCode::TapWithType => 0x05,
            OpCode::TypeText => 0x06,
            OpCode::Swipe => 0x07,
            OpCode::GetValue => 0x08,
            OpCode::LongPress => 0x09,
            OpCode::DumpTree => 0x10,
            OpCode::Screenshot => 0x11,
            OpCode::SetTarget => 0x12,
            OpCode::FindElement => 0x13,
            OpCode::Error => 0x99,
            OpCode::Response => 0xA0,
        }
    }
}

/// Every opcode's byte converts back to that opcode.
pub proof fn lemma_opcode_byte_roundtrip(op: OpCode)
    ensures
        opcode_of(opcode_byte(op)) == Some(op),
{
}

/// A byte that converts to an opcode is that opcode's byte.
pub proof fn lemma_opcode_of_inverse(b: u8)
    ensures
        opcode_of(b) matches Some(op) ==> opcode_byte(op) == b,
{
}

// ---------------------------------------------------------------------------
// Response sub-type
// ---------------------------------------------------------------------------

/// Response sub-type byte used inside the `Response` opcode payload.
#[derive(Debug, Clone, Copy, PartialEq, Eq, Structural)]
pub enum ResponseType {
    Success,
    Error,
    Tree,
    Screenshot,
    Value,
    Element,
}

pub open spec fn response_type_byte(t: ResponseType) -> u8 {
    match t {
        ResponseType::Success => 0x00,
        ResponseType::Error => 0x01,
        ResponseType::Tree => 0x02,
        ResponseType::Screenshot => 0x03,
        ResponseType::Value => 0x04,
        ResponseType::Element => 0x05,
    }
}

pub open spec fn response_type_of(b: u8) -> Option<ResponseType> {
    if b == 0x00 {
        Some(ResponseType::Success)
    } else if b == 0x01 {
        Some(ResponseType::Error)
    } else if b == 0x02 {
        Some(ResponseType::Tree)
    } else if b == 0x03 {
        Some(ResponseType::Screenshot)
    } else if b == 0x04 {
        Some(ResponseType::Value)
    } else if b == 0x05 {
        Some(ResponseType::Element)
    } else {
        None
    }
}

/// The message that names an unknown response sub-type.
pub open spec fn unknown_response_type_message(b: u8) -> Seq<char> {
    "unknown response type: 0x"@ + hex_byte(b)
}

impl ResponseType {
    fn from_u8(byte: u8) -> (r: Result<ResponseType, ProtocolError>)
        ensures
            match response_type_of(byte) {
                Some(t) => r == Ok::<ResponseType, ProtocolError>(t),
                None => r matches Err(e) && e@ == ProtocolErrorView::InvalidPayload(
                    unknown_response_type_message(byte),
                ),
            },
    {
        match byte {
            0x00 => Ok(ResponseType::Success),
            0x01 => Ok(ResponseType::Error),
            0x02 => Ok(ResponseType::Tree),
            0x03 => Ok(ResponseType::Screenshot),
            0x04 => Ok(ResponseType::Value),
            0x05 => Ok(ResponseType::Element),
            other => {
                let mut m = String::from_str("unknown response type: 0x");
                push_hex_byte(&mut m, other);
                Err(ProtocolError::InvalidPayload(m))
            },
        }
    }

    fn to_u8(self) -> (r: u8)
        ensures
            r == response_type_byte(self),
    {
        match self {
            ResponseType::Success => 0x00,
            ResponseType::Error => 0x01,
            ResponseType::Tree => 0x02,
            ResponseType::Screenshot => 0x03,
            ResponseType::Value => 0x04,
            ResponseType::Element => 0x05,
        }
    }
}

// ---------------------------------------------------------------------------
// Requests and responses
// ---------------------------------------------------------------------------

/// A typed request from the host to the agent.
///
/// Swipe and long-press durations are carried as the IEEE-754 bit pattern of
/// the `f64` number of seconds (`f64::to_bits`), which is what travels on the
/// wire.
#[derive(Debug, Clone, PartialEq)]
pub enum Request {
    /// Keep-alive heartbeat.
    Heartbeat,
    /// Tap at absolute screen coordinates.
    TapCoord { x: i32, y: i32 },
    /// Tap an element by its accessibility identifier.
    TapElement { selector: String },
    /// Tap an element by its accessibility label.
    TapByLabel { label: String },
    /// Tap an element with an explicit type filter.
    TapWithType { selector: String, by_label: bool, element_type: String },
    /// Send keyboard input text.
    TypeText { text: String },
    /// Perform a swipe gesture between two points.
    Swipe { start_x: i32, start_y: i32, end_x: i32, end_y: i32, duration: Option<u64> },
    /// Retrieve the current value of a UI element.
    GetValue { selector: String, by_label: bool, element_type: Option<String> },
    /// Perform a long press at specific screen coordinates.
    LongPress { x: i32, y: i32, duration: u64 },
    /// Request the full accessibility tree.
    DumpTree,
    /// Request a screenshot.
    Screenshot,
    /// Set the target application bundle ID for accessibility queries.
    SetTarget { bundle_id: String },
    /// Find a single element matching the selector.
    FindElement { selector: String, by_label: bool, element_type: Option<String> },
}

/// The mathematical form of a [`Request`].
pub enum RequestView {
    Heartbeat,
    TapCoord { x: i32, y: i32 },
    TapElement { selector: Seq<char> },
    TapByLabel { label: Seq<char> },
    TapWithType { selector: Seq<char>, by_label: bool, element_type: Seq<char> },
    TypeText { text: Seq<char> },
    Swipe { start_x: i32, start_y: i32, end_x: i32, end_y: i32, duration: Option<u64> },
    GetValue { selector: Seq<char>, by_label: bool, element_type: Option<Seq<char>> },
    LongPress { x: i32, y: i32, duration: u64 },
    DumpTree,
    Screenshot,
    SetTarget { bundle_id: Seq<char> },
    FindElement { selector: Seq<char>, by_label: bool, element_type: Option<Seq<char>> },
}

/// The characters of an optional string.
pub open spec fn opt_view(o: Option<String>) -> Option<Seq<char>> {
    match o {
        Some(s) => Some(s@),
        None => None,
    }
}

impl View for Request {
    type V = RequestView;

    open spec fn view(&self) -> RequestView {
        match self {
            Request::Heartbeat => RequestView::Heartbeat,
            Request::TapCoord { x, y } => RequestView::TapCoord { x: *x, y: *y },
            Request::TapElement { selector } => RequestView::TapElement { selector: selector@ },
            Request::TapByLabel { label } => RequestView::TapByLabel { label: label@ },
            Request::TapWithType { selector, by_label, element_type } => RequestView::TapWithType {
                selector: selector@,
                by_label: *by_label,
                element_type: element_type@,
            },
            Request::TypeText { text } => RequestView::TypeText { text: text@ },
            Request::Swipe { start_x, start_y, end_x, end_y, duration } => RequestView::Swipe {
                start_x: *start_x,
                start_y: *start_y,
                end_x: *end_x,
                end_y: *end_y,
                duration: *duration,
            },
            Request::GetValue { selector, by_label, element_type } => RequestView::GetValue {
                selector: selector@,
                by_label: *by_label,
                element_type: opt_view(*element_type),
            },
            Request::LongPress { x, y, duration } => RequestView::LongPress {
                x: *x,
                y: *y,
                duration: *duration,
            },
            Request::DumpTree => RequestView::DumpTree,
            Request::Screenshot => RequestView::Screenshot,
            Request::SetTarget { bundle_id } => RequestView::SetTarget { bundle_id: bundle_id@ },
            Request::FindElement { selector, by_label, element_type } => RequestView::FindElement {
                selector: selector@,
                by_label: *by_label,
                element_type: opt_view(*element_type),
            },
        }
    }
}

/// The short name of each request type.
pub open spec fn request_name(r: RequestView) -> Seq<char> {
    match r {
        RequestView::Heartbeat => "heartbeat"@,
        RequestView::TapCoord { .. } => "tap_coord"@,
        RequestView::TapElement { .. } => "tap_element"@,
        RequestView::TapByLabel { .. } => "tap_by_label"@,
        RequestView::TapWithType { .. } => "tap_with_type"@,
        RequestView::TypeText { .. } => "type_text"@,
        RequestView::Swipe { .. } => "swipe"@,
        RequestView::GetValue { .. } => "get_value"@,
        RequestView::LongPress { .. } => "long_press"@,
        RequestView::DumpTree => "dump_tree"@,
        RequestView::Screenshot => "screenshot"@,
        RequestView::SetTarget { .. } => "set_target"@,
        RequestView::FindElement { .. } => "find_element"@,
    }
}

impl Request {
    /// A short, static name for this request type.
    pub fn opcode_name(&self) -> (r: &'static str)
        ensures
            r@ == request_name(self@),
    {
        match self {
            Request::Heartbeat => "heartbeat",
            Request::TapCoord { .. } => "tap_coord",
            Request::TapElement { .. } => "tap_element",
            Request::TapByLabel { .. } => "tap_by_label",
            Request::TapWithType { .. } => "tap_with_type",
            Request::TypeText { .. } => "type_text",
            Request::Swipe { .. } => "swipe",
            Request::GetValue { .. } => "get_value",
            Request::LongPress { .. } => "long_press",
            Request::DumpTree => "dump_tree",
            Request::Screenshot => "screenshot",
            Request::SetTarget { .. } => "set_target",
            Request::FindElement { .. } => "find_element",
        }
    }
}

/// A typed response from the agent to the host.
#[derive(Debug, Clone, PartialEq)]
pub enum Response {
    /// The operation completed successfully with no additional data.
    Success,
    /// The operation failed.
    Error { message: String },
    /// A JSON-encoded accessibility tree.
    Tree { json: String },
    /// Raw screenshot image bytes (PNG or JPEG).
    Screenshot { data: Vec<u8> },
    /// The current value of a UI element, if available.
    Value { value: Option<String> },
    /// A JSON-encoded single element result.
    Element { json: String },
}

/// The mathematical form of a [`Response`].
pub enum ResponseView {
    Success,
    Error { message: Seq<char> },
    Tree { json: Seq<char> },
    Screenshot { data: Seq<u8> },
    Value { value: Option<Seq<char>> },
    Element { json: Seq<char> },
}

impl View for Response {
    type V = ResponseView;

    open spec fn view(&self) -> ResponseView {
        match self {
            Response::Success => ResponseView::Success,
            Response::Error { message } => ResponseView::Error { message: message@ },
            Response::Tree { json } => ResponseView::Tree { json: json@ },
            Response::Screenshot { data } => ResponseView::Screenshot { data: data@ },
            Response::Value { value } => ResponseView::Value { value: opt_view(*value) },
            Response::Element { json } => ResponseView::Element { json: json@ },
        }
    }
}

// ---------------------------------------------------------------------------
// Wire encodings
// ---------------------------------------------------------------------------

/// A payload behind its 4-byte little-endian length header.
pub open spec fn frame(p: Seq<u8>) -> Seq<u8> {
    le_u32(p.len() as u32) + p
}

/// An optional duration: a presence byte, then its 8 bytes when present.
pub open spec fn enc_opt_u64(o: Option<u64>) -> Seq<u8> {
    match o {
        None => seq![0u8],
        Some(d) => seq![1u8] + le_u64(d),
    }
}

/// The opcode byte and fields of a request.
pub open spec fn request_payload(r: RequestView) -> Seq<u8> {
    match r {
        RequestView::Heartbeat => seq![0x01u8],
        RequestView::TapCoord { x, y } => seq![0x02u8] + le_i32(x) + le_i32(y),
        RequestView::TapElement { selector } => seq![0x03u8] + enc_str(selector),
        RequestView::TapByLabel { label } => seq![0x04u8] + enc_str(label),
        RequestView::TapWithType { selector, by_label, element_type } => seq![0x05u8] + enc_str(
            selector,
        ) + enc_bool(by_label) + enc_str(element_type),
        RequestView::TypeText { text } => seq![0x06u8] + enc_str(text),
        RequestView::Swipe { start_x, start_y, end_x, end_y, duration } => seq![0x07u8] + le_i32(
            start_x,
        ) + le_i32(start_y) + le_i32(end_x) + le_i32(end_y) + enc_opt_u64(duration),
        RequestView::GetValue { selector, by_label, element_type } => seq![0x08u8] + enc_str(
            selector,
        ) + enc_bool(by_label) + enc_opt_str(element_type),
        RequestView::LongPress { x, y, duration } => seq![0x09u8] + le_i32(x) + le_i32(y)
            + le_u64(duration),
        RequestView::DumpTree => seq![0x10u8],
        RequestView::Screenshot => seq![0x11u8],
        RequestView::SetTarget { bundle_id } => seq![0x12u8] + enc_str(bundle_id),
        RequestView::FindElement { selector, by_label, element_type } => seq![0x13u8] + enc_str(
            selector,
        ) + enc_bool(by_label) + enc_opt_str(element_type),
    }
}

/// The response opcode, the sub-type byte and the fields of a response.
pub open spec fn response_payload(r: ResponseView) -> Seq<u8> {
    match r {
        ResponseView::Success => seq![0xA0u8, 0x00u8],
        ResponseView::Error { message } => seq![0xA0u8, 0x01u8] + enc_str(message),
        ResponseView::Tree { json } => seq![0xA0u8, 0x02u8] + enc_str(json),
        ResponseView::Screenshot { data } => seq![0xA0u8, 0x03u8] + enc_bytes(data),
        ResponseView::Value { value } => seq![0xA0u8, 0x04u8] + enc_opt_str(value),
        ResponseView::Element { json } => seq![0xA0u8, 0x05u8] + enc_str(json),
    }
}

/// Every string of a request fits its `u32` length prefix.
pub open spec fn request_fits(r: RequestView) -> bool {
    match r {
        RequestView::TapElement { selector } => str_fits(selector),
        RequestView::TapByLabel { label } => str_fits(label),
        RequestView::TapWithType { selector, element_type, .. } => str_fits(selector) && str_fits(
            element_type,
        ),
        RequestView::TypeText { text } => str_fits(text),
        RequestView::GetValue { selector, element_type, .. } => str_fits(selector)
            && opt_str_fits(element_type),
        RequestView::SetTarget { bundle_id } => str_fits(bundle_id),
        RequestView::FindElement { selector, element_type, .. } => str_fits(selector)
            && opt_str_fits(element_type),
        _ => true,
    }
}

/// Every string or byte field of a response fits its `u32` length prefix.
pub open spec fn response_fits(r: ResponseView) -> bool {
    match r {
        ResponseView::Error { message } => str_fits(message),
        ResponseView::Tree { json } => str_fits(json),
        ResponseView::Screenshot { data } => data.len() <= u32::MAX,
        ResponseView::Value { value } => opt_str_fits(value),
        ResponseView::Element { json } => str_fits(json),
        ResponseView::Success => true,
    }
}

// ---------------------------------------------------------------------------
// Low-level writers
// ---------------------------------------------------------------------------

/// Write a length-prefixed UTF-8 string into `buf`.
fn write_string(buf: &mut Vec<u8>, s: &str)
    ensures
        final(buf)@ == old(buf)@ + enc_str(s@),
{
    let bytes = s.as_bytes();
    push_u32_le(buf, bytes.len() as u32);
    push_all(buf, bytes);
    assert(buf@ =~= old(buf)@ + enc_str(s@));
}

/// Write raw bytes with a u32 LE length prefix into `buf`.
fn write_bytes(buf: &mut Vec<u8>, data: &[u8])
    ensures
        final(buf)@ == old(buf)@ + enc_bytes(data@),
{
    push_u32_le(buf, data.len() as u32);
    push_all(buf, data);
    assert(buf@ =~= old(buf)@ + enc_bytes(data@));
}

/// Write an optional string into `buf`.
fn write_optional_string(buf: &mut Vec<u8>, opt: &Option<String>)
    ensures
        final(buf)@ == old(buf)@ + enc_opt_str(opt_view(*opt)),
{
    match opt {
        None => {
            buf.push(0u8);
            assert(buf@ =~= old(buf)@ + enc_opt_str(opt_view(*opt)));
        },
        Some(s) => {
            buf.push(1u8);
            write_string(buf, s.as_str());
            assert(buf@ =~= old(buf)@ + enc_opt_str(opt_view(*opt)));
        },
    }
}

/// Write a bool as a single `u8` (0 = false, 1 = true).
fn write_bool(buf: &mut Vec<u8>, v: bool)
    ensures
        final(buf)@ == old(buf)@ + enc_bool(v),
{
    buf.push(if v { 1u8 } else { 0u8 });
    assert(buf@ =~= old(buf)@ + enc_bool(v));
}

// ---------------------------------------------------------------------------
// Frame helpers
// ---------------------------------------------------------------------------

/// Wrap a payload (opcode + data) with the 4-byte LE length header.
pub fn encode_frame(payload: &[u8]) -> (r: Vec<u8>)
    ensures
        r@ == frame(payload@),
{
    let mut frame_buf: Vec<u8> = Vec::new();
    push_u32_le(&mut frame_buf, payload.len() as u32);
    push_all(&mut frame_buf, payload);
    assert(frame_buf@ =~= frame(payload@));
    frame_buf
}

/// Read the payload length from a 4-byte LE header.
pub fn read_frame_length(header: &[u8; 4]) -> (r: u32)
    ensures
        r == u32_from_le(header@[0], header@[1], header@[2], header@[3]),
{
    (header[0] as u32) | ((header[1] as u32) << 8u32) | ((header[2] as u32) << 16u32) | ((
    header[3] as u32) << 24u32)
}

/// The header of a frame reads back as the length of its payload.
pub proof fn lemma_frame_length(p: Seq<u8>)
    requires
        p.len() <= u32::MAX,
    ensures
        frame(p).len() == p.len() + 4,
        u32_from_le(frame(p)[0], frame(p)[1], frame(p)[2], frame(p)[3]) == p.len(),
        frame(p).subrange(4, frame(p).len() as int) == p,
{
    lemma_u32_roundtrip(p.len() as u32);
    assert(frame(p).subrange(4, frame(p).len() as int) =~= p);
}

// ---------------------------------------------------------------------------
// Encode
// ---------------------------------------------------------------------------

/// Encode a [`Request`] into wire format including the 4-byte length header.
pub fn encode_request(req: &Request) -> (r: Vec<u8>)
    ensures
        r@ == frame(request_payload(req@)),
{
    let mut payload: Vec<u8> = Vec::new();
    match req {
        Request::Heartbeat => {
            payload.push(0x01u8);
        },
        Request::TapCoord { x, y } => {
            payload.push(0x02u8);
            push_i32_le(&mut payload, *x);
            push_i32_le(&mut payload, *y);
        },
        Request::TapElement { selector } => {
            payload.push(0x03u8);
            write_string(&mut payload, selector.as_str());
        },
        Request::TapByLabel { label } => {
            payload.push(0x04u8);
            write_string(&mut payload, label.as_str());
        },
        Request::TapWithType { selector, by_label, element_type } => {
            payload.push(0x05u8);
            write_string(&mut payload, selector.as_str());
            write_bool(&mut payload, *by_label);
            write_string(&mut payload, element_type.as_str());
        },
        Request::TypeText { text } => {
            payload.push(0x06u8);
            write_string(&mut payload, text.as_str());
        },
        Request::Swipe { start_x, start_y, end_x, end_y, duration } => {
            payload.push(0x07u8);
            push_i32_le(&mut payload, *start_x);
            push_i32_le(&mut payload, *start_y);
            push_i32_le(&mut payload, *end_x);
            push_i32_le(&mut payload, *end_y);
            match duration {
                None => payload.push(0u8),
                Some(d) => {
                    payload.push(1u8);
                    push_u64_le(&mut payload, *d);
                },
            }
        },
        Request::GetValue { selector, by_label, element_type } => {
            payload.push(0x08u8);
            write_string(&mut payload, selector.as_str());
            write_bool(&mut payload, *by_label);
            write_optional_string(&mut payload, element_type);
        },
        Request::LongPress { x, y, duration } => {
            payload.push(0x09u8);
            push_i32_le(&mut payload, *x);
            push_i32_le(&mut payload, *y);
            push_u64_le(&mut payload, *duration);
        },
        Request::DumpTree => {
            payload.push(0x10u8);
        },
        Request::Screenshot => {
            payload.push(0x11u8);
        },
        Request::SetTarget { bundle_id } => {
            payload.push(0x12u8);
            write_string(&mut payload, bundle_id.as_str());
        },
        Request::FindElement { selector, by_label, element_type } => {
            payload.push(0x13u8);
            write_string(&mut payload, selector.as_str());
            write_bool(&mut payload, *by_label);
            write_optional_string(&mut payload, element_type);
        },
    }
    assert(payload@ =~= request_payload(req@));
    encode_frame(payload.as_slice())
}

/// Encode a [`Response`] into wire format including the 4-byte length header.
pub fn encode_response(resp: &Response) -> (r: Vec<u8>)
    ensures
        r@ == frame(response_payload(resp@)),
{
    let mut payload: Vec<u8> = Vec::new();
    payload.push(0xA0u8);
    match resp {
        Response::Success => {
            payload.push(0x00u8);
        },
        Response::Error { message } => {
            payload.push(0x01u8);
            write_string(&mut payload, message.as_str());
        },
        Response::Tree { json } => {
            payload.push(0x02u8);
            write_string(&mut payload, json.as_str());
        },
        Response::Screenshot { data } => {
            payload.push(0x03u8);
            write_bytes(&mut payload, data.as_slice());
        },
        Response::Value { value } => {
            payload.push(0x04u8);
            write_optional_string(&mut payload, value);
        },
        Response::Element { json } => {
            payload.push(0x05u8);
            write_string(&mut payload, json.as_str());
        },
    }
    assert(payload@ =~= response_payload(resp@));
    encode_frame(payload.as_slice())
}

// ---------------------------------------------------------------------------
// Reading: specification
// ---------------------------------------------------------------------------

/// One byte at position `p`.
pub open spec fn rd_u8(d: Seq<u8>, p: int) -> Result<(u8, int), ProtocolErrorView> {
    if 0 <= p && p + 1 <= d.len() {
        Ok((d[p], p + 1))
    } else {
        Err(ProtocolErrorView::InsufficientData)
    }
}

/// A little-endian `u32` at position `p`.
pub open spec fn rd_u32(d: Seq<u8>, p: int) -> Result<(u32, int), ProtocolErrorView> {
    if 0 <= p && p + 4 <= d.len() {
        Ok((u32_from_le(d[p], d[p + 1], d[p + 2], d[p + 3]), p + 4))
    } else {
        Err(ProtocolErrorView::InsufficientData)
    }
}

/// A little-endian `i32` at position `p`.
pub open spec fn rd_i32(d: Seq<u8>, p: int) -> Result<(i32, int), ProtocolErrorView> {
    match rd_u32(d, p) {
        Ok((v, q)) => Ok((v as i32, q)),
        Err(e) => Err(e),
    }
}

/// A little-endian `u64` at position `p`.
pub open spec fn rd_u64(d: Seq<u8>, p: int) -> Result<(u64, int), ProtocolErrorView> {
    if 0 <= p && p + 8 <= d.len() {
        Ok(
            (
                u64_from_halves(
                    u32_from_le(d[p], d[p + 1], d[p + 2], d[p + 3]),
                    u32_from_le(d[p + 4], d[p + 5], d[p + 6], d[p + 7]),
                ),
                p + 8,
            ),
        )
    } else {
        Err(ProtocolErrorView::InsufficientData)
    }
}

/// A boolean byte at position `p`: any non-zero byte reads as true.
pub open spec fn rd_bool(d: Seq<u8>, p: int) -> Result<(bool, int), ProtocolErrorView> {
    match rd_u8(d, p) {
        Ok((b, q)) => Ok((b != 0, q)),
        Err(e) => Err(e),
    }
}

/// A length-prefixed byte string at position `p`.
pub open spec fn rd_bytes(d: Seq<u8>, p: int) -> Result<(Seq<u8>, int), ProtocolErrorView> {
    match rd_u32(d, p) {
        Ok((n, q)) => if q + n <= d.len() {
            Ok((d.subrange(q, q + n), q + n))
        } else {
            Err(ProtocolErrorView::InsufficientData)
        },
        Err(e) => Err(e),
    }
}

/// A length-prefixed UTF-8 string at position `p`.
pub open spec fn rd_str(d: Seq<u8>, p: int) -> Result<(Seq<char>, int), ProtocolErrorView> {
    match rd_bytes(d, p) {
        Ok((b, q)) => if valid_utf8(b) {
            Ok((decode_utf8(b), q))
        } else {
            Err(ProtocolErrorView::Utf8Error)
        },
        Err(e) => Err(e),
    }
}

/// An optional string at position `p`: a zero byte reads as absent.
pub open spec fn rd_opt_str(d: Seq<u8>, p: int) -> Result<
    (Option<Seq<char>>, int),
    ProtocolErrorView,
> {
    match rd_u8(d, p) {
        Ok((f, q)) => if f == 0 {
            Ok((None, q))
        } else {
            match rd_str(d, q) {
                Ok((s, r)) => Ok((Some(s), r)),
                Err(e) => Err(e),
            }
        },
        Err(e) => Err(e),
    }
}

/// The message for an opcode that cannot start a request.
pub open spec fn not_request_message(b: u8) -> Seq<char> {
    "opcode 0x"@ + hex_byte(b) + " is not a valid request opcode"@
}

/// The message for an opcode that cannot start a response.
pub open spec fn not_response_message(b: u8) -> Seq<char> {
    "opcode 0x"@ + hex_byte(b) + " is not a valid response opcode"@
}

/// What decoding a selector, a by-label flag and an optional type yields.
pub open spec fn rd_selector_query(d: Seq<u8>, p: int) -> Result<
    (Seq<char>, bool, Option<Seq<char>>),
    ProtocolErrorView,
> {
    match rd_str(d, p) {
        Err(e) => Err(e),
        Ok((selector, p1)) => match rd_bool(d, p1) {
            Err(e) => Err(e),
            Ok((by_label, p2)) => match rd_opt_str(d, p2) {
                Err(e) => Err(e),
                Ok((element_type, _)) => Ok((selector, by_label, element_type)),
            },
        },
    }
}

/// The request that the bytes after the opcode stand for.
pub open spec fn decode_request_body(op: OpCode, d: Seq<u8>, p: int) -> Result<
    RequestView,
    ProtocolErrorView,
> {
    match op {
        OpCode::Heartbeat => Ok(RequestView::Heartbeat),
        OpCode::TapCoord => match rd_i32(d, p) {
            Err(e) => Err(e),
            Ok((x, p1)) => match rd_i32(d, p1) {
                Err(e) => Err(e),
                Ok((y, _)) => Ok(RequestView::TapCoord { x, y }),
            },
        },
        OpCode::TapElement => match rd_str(d, p) {
            Err(e) => Err(e),
            Ok((selector, _)) => Ok(RequestView::TapElement { selector }),
        },
        OpCode::TapByLabel => match rd_str(d, p) {
            Err(e) => Err(e),
            Ok((label, _)) => Ok(RequestView::TapByLabel { label }),
        },
        OpCode::TapWithType => match rd_str(d, p) {
            Err(e) => Err(e),
            Ok((selector, p1)) => match rd_bool(d, p1) {
                Err(e) => Err(e),
                Ok((by_label, p2)) => match rd_str(d, p2) {
                    Err(e) => Err(e),
                    Ok((element_type, _)) => Ok(
                        RequestView::TapWithType { selector, by_label, element_type },
                    ),
                },
            },
        },
        OpCode::TypeText => match rd_str(d, p) {
            Err(e) => Err(e),
            Ok((text, _)) => Ok(RequestView::TypeText { text }),
        },
        OpCode::Swipe => match rd_i32(d, p) {
            Err(e) => Err(e),
            Ok((start_x, p1)) => match rd_i32(d, p1) {
                Err(e) => Err(e),
                Ok((start_y, p2)) => match rd_i32(d, p2) {
                    Err(e) => Err(e),
                    Ok((end_x, p3)) => match rd_i32(d, p3) {
                        Err(e) => Err(e),
                        Ok((end_y, p4)) => match rd_bool(d, p4) {
                            Err(e) => Err(e),
                            Ok((has_duration, p5)) => if has_duration {
                                match rd_u64(d, p5) {
                                    Err(e) => Err(e),
                                    Ok((dur, _)) => Ok(
                                        RequestView::Swipe {
                                            start_x,
                                            start_y,
                                            end_x,
                                            end_y,
                                            duration: Some(dur),
                                        },
                                    ),
                                }
                            } else {
                                Ok(
                                    RequestView::Swipe {
                                        start_x,
                                        start_y,
                                        end_x,
                                        end_y,
                                        duration: None,
                                    },
                                )
                            },
                        },
                    },
                },
            },
        },
        OpCode::GetValue => match rd_selector_query(d, p) {
            Err(e) => Err(e),
            Ok((selector, by_label, element_type)) => Ok(
                RequestView::GetValue { selector, by_label, element_type },
            ),
        },
        OpCode::LongPress => match rd_i32(d, p) {
            Err(e) => Err(e),
            Ok((x, p1)) => match rd_i32(d, p1) {
                Err(e) => Err(e),
                Ok((y, p2)) => match rd_u64(d, p2) {
                    Err(e) => Err(e),
                    Ok((duration, _)) => Ok(RequestView::LongPress { x, y, duration }),
                },
            },
        },
        OpCode::DumpTree => Ok(RequestView::DumpTree),
        OpCode::Screenshot => Ok(RequestView::Screenshot),
        OpCode::SetTarget => match rd_str(d, p) {
            Err(e) => Err(e),
            Ok((bundle_id, _)) => Ok(RequestView::SetTarget { bundle_id }),
        },
        OpCode::FindElement => match rd_selector_query(d, p) {
            Err(e) => Err(e),
            Ok((selector, by_label, element_type)) => Ok(
                RequestView::FindElement { selector, by_label, element_type },
            ),
        },
        OpCode::Error | OpCode::Response => Err(
            ProtocolErrorView::InvalidPayload(not_request_message(opcode_byte(op))),
        ),
    }
}

/// The request that a payload (opcode onwards, no length header) stands for.
pub open spec fn spec_decode_request(d: Seq<u8>) -> Result<RequestView, ProtocolErrorView> {
    match rd_u8(d, 0) {
        Err(e) => Err(e),
        Ok((b, p)) => match opcode_of(b) {
            None => Err(ProtocolErrorView::InvalidOpCode(b)),
            Some(op) => decode_request_body(op, d, p),
        },
    }
}

/// The response that a payload (opcode onwards, no length header) stands for.
pub open spec fn spec_decode_response(d: Seq<u8>) -> Result<ResponseView, ProtocolErrorView> {
    match rd_u8(d, 0) {
        Err(e) => Err(e),
        Ok((b, p)) => match opcode_of(b) {
            None => Err(ProtocolErrorView::InvalidOpCode(b)),
            Some(OpCode::Response) => match rd_u8(d, p) {
                Err(e) => Err(e),
                Ok((t, q)) => match response_type_of(t) {
                    None => Err(ProtocolErrorView::InvalidPayload(unknown_response_type_message(t))),
                    Some(ResponseType::Success) => Ok(ResponseView::Success),
                    Some(ResponseType::Error) => match rd_str(d, q) {
                        Err(e) => Err(e),
                        Ok((message, _)) => Ok(ResponseView::Error { message }),
                    },
                    Some(ResponseType::Tree) => match rd_str(d, q) {
                        Err(e) => Err(e),
                        Ok((json, _)) => Ok(ResponseView::Tree { json }),
                    },
                    Some(ResponseType::Screenshot) => match rd_bytes(d, q) {
                        Err(e) => Err(e),
                        Ok((data, _)) => Ok(ResponseView::Screenshot { data }),
                    },
                    Some(ResponseType::Value) => match rd_opt_str(d, q) {
                        Err(e) => Err(e),
                        Ok((value, _)) => Ok(ResponseView::Value { value }),
                    },
                    Some(ResponseType::Element) => match rd_str(d, q) {
                        Err(e) => Err(e),
                        Ok((json, _)) => Ok(ResponseView::Element { json }),
                    },
                },
            },
            Some(OpCode::Error) => match rd_str(d, p) {
                Err(e) => Err(e),
                Ok((message, _)) => Ok(ResponseView::Error { message }),
            },
            Some(op) => Err(ProtocolErrorView::InvalidPayload(not_response_message(b))),
        },
    }
}

/// The view of a decoding outcome.
pub open spec fn result_view<T: View>(r: Result<T, ProtocolError>) -> Result<
    T::V,
    ProtocolErrorView,
> {
    match r {
        Ok(v) => Ok(v@),
        Err(e) => Err(e@),
    }
}

// ---------------------------------------------------------------------------
// Reading: execution
// ---------------------------------------------------------------------------

/// Decodes UTF-8 bytes as a string slice (`std::str::from_utf8`).
///
/// Trusted: std documents that `from_utf8` succeeds exactly when the bytes are
/// valid UTF-8 and then yields the string they encode.
#[verifier::external_body]
fn str_from_utf8(b: &[u8]) -> (r: Option<&str>)
    ensures
        r is Some <==> valid_utf8(b@),
        r matches Some(s) ==> s@ == decode_utf8(b@),
{
    match std::str::from_utf8(b) {
        Ok(s) => Some(s),
        Err(_) => None,
    }
}

/// A cursor over a byte slice for sequential reads.
struct Cursor<'a> {
    data: &'a [u8],
    pos: usize,
}

impl<'a> Cursor<'a> {
    fn new(data: &'a [u8]) -> (r: Self)
        ensures
            r.data@ == data@,
            r.pos == 0,
    {
        Cursor { data, pos: 0 }
    }

    fn remaining(&self) -> (r: usize)
        ensures
            r == if self.pos <= self.data@.len() {
                self.data@.len() - self.pos
            } else {
                0
            },
    {
        self.data.len().saturating_sub(self.pos)
    }

    fn read_u8(&mut self) -> (r: Result<u8, ProtocolError>)
        requires
            old(self).pos <= old(self).data@.len(),
        ensures
            final(self).data@ == old(self).data@,
            final(self).pos <= final(self).data@.len(),
            match rd_u8(old(self).data@, old(self).pos as int) {
                Ok((v, q)) => r == Ok::<u8, ProtocolError>(v) && final(self).pos == q,
                Err(e) => r matches Err(x) && x@ == e,
            },
    {
        if self.remaining() < 1 {
            return Err(ProtocolError::InsufficientData);
        }
        let v = self.data[self.pos];
        self.pos = self.pos + 1;
        Ok(v)
    }

    fn read_u32(&mut self) -> (r: Result<u32, ProtocolError>)
        requires
            old(self).pos <= old(self).data@.len(),
        ensures
            final(self).data@ == old(self).data@,
            final(self).pos <= final(self).data@.len(),
            match rd_u32(old(self).data@, old(self).pos as int) {
                Ok((v, q)) => r == Ok::<u32, ProtocolError>(v) && final(self).pos == q,
                Err(e) => r matches Err(x) && x@ == e,
            },
    {
        if self.remaining() < 4 {
            return Err(ProtocolError::InsufficientData);
        }
        let p = self.pos;
        let v = (self.data[p] as u32) | ((self.data[p + 1] as u32) << 8u32) | ((self.data[p
            + 2] as u32) << 16u32) | ((self.data[p + 3] as u32) << 24u32);
        self.pos = p + 4;
        Ok(v)
    }

    fn read_i32(&mut self) -> (r: Result<i32, ProtocolError>)
        requires
            old(self).pos <= old(self).data@.len(),
        ensures
            final(self).data@ == old(self).data@,
            final(self).pos <= final(self).data@.len(),
            match rd_i32(old(self).data@, old(self).pos as int) {
                Ok((v, q)) => r == Ok::<i32, ProtocolError>(v) && final(self).pos == q,
                Err(e) => r matches Err(x) && x@ == e,
            },
    {
        match self.read_u32() {
            Ok(v) => Ok(v as i32),
            Err(e) => Err(e),
        }
    }

    fn read_u64(&mut self) -> (r: Result<u64, ProtocolError>)
        requires
            old(self).pos <= old(self).data@.len(),
        ensures
            final(self).data@ == old(self).data@,
            final(self).pos <= final(self).data@.len(),
            match rd_u64(old(self).data@, old(self).pos as int) {
                Ok((v, q)) => r == Ok::<u64, ProtocolError>(v) && final(self).pos == q,
                Err(e) => r matches Err(x) && x@ == e,
            },
    {
        if self.remaining() < 8 {
            return Err(ProtocolError::InsufficientData);
        }
        let lo = match self.read_u32() {
            Ok(v) => v,
            Err(e) => return Err(e),
        };
        let hi = match self.read_u32() {
            Ok(v) => v,
            Err(e) => return Err(e),
        };
        Ok((lo as u64) | ((hi as u64) << 32u64))
    }

    fn read_bool(&mut self) -> (r: Result<bool, ProtocolError>)
        requires
            old(self).pos <= old(self).data@.len(),
        ensures
            final(self).data@ == old(self).data@,
            final(self).pos <= final(self).data@.len(),
            match rd_bool(old(self).data@, old(self).pos as int) {
                Ok((v, q)) => r == Ok::<bool, ProtocolError>(v) && final(self).pos == q,
                Err(e) => r matches Err(x) && x@ == e,
            },
    {
        match self.read_u8() {
            Ok(b) => Ok(b != 0),
            Err(e) => Err(e),
        }
    }

    fn read_bytes(&mut self) -> (r: Result<Vec<u8>, ProtocolError>)
        requires
            old(self).pos <= old(self).data@.len(),
        ensures
            final(self).data@ == old(self).data@,
            final(self).pos <= final(self).data@.len(),
            match rd_bytes(old(self).data@, old(self).pos as int) {
                Ok((v, q)) => r matches Ok(x) && x@ == v && final(self).pos == q,
                Err(e) => r matches Err(x) && x@ == e,
            },
    {
        let len = match self.read_u32() {
            Ok(v) => v as usize,
            Err(e) => return Err(e),
        };
        if self.remaining() < len {
            return Err(ProtocolError::InsufficientData);
        }
        let n = self.data.len();
        let p = self.pos;
        assert(p + len <= n);
        let v = vstd::slice::slice_to_vec(vstd::slice::slice_subrange(self.data, p, p + len));
        self.pos = p + len;
        Ok(v)
    }

    fn read_string(&mut self) -> (r: Result<String, ProtocolError>)
        requires
            old(self).pos <= old(self).data@.len(),
        ensures
            final(self).data@ == old(self).data@,
            final(self).pos <= final(self).data@.len(),
            match rd_str(old(self).data@, old(self).pos as int) {
                Ok((v, q)) => r matches Ok(x) && x@ == v && final(self).pos == q,
                Err(e) => r matches Err(x) && x@ == e,
            },
    {
        let len = match self.read_u32() {
            Ok(v) => v as usize,
            Err(e) => return Err(e),
        };
        if self.remaining() < len {
            return Err(ProtocolError::InsufficientData);
        }
        let n = self.data.len();
        let p = self.pos;
        assert(p + len <= n);
        let bytes = vstd::slice::slice_subrange(self.data, p, p + len);
        match str_from_utf8(bytes) {
            Some(s) => {
                self.pos = p + len;
                Ok(s.to_owned())
            },
            None => Err(ProtocolError::Utf8Error),
        }
    }

    fn read_optional_string(&mut self) -> (r: Result<Option<String>, ProtocolError>)
        requires
            old(self).pos <= old(self).data@.len(),
        ensures
            final(self).data@ == old(self).data@,
            final(self).pos <= final(self).data@.len(),
            match rd_opt_str(old(self).data@, old(self).pos as int) {
                Ok((v, q)) => r matches Ok(x) && opt_view(x) == v && final(self).pos == q,
                Err(e) => r matches Err(x) && x@ == e,
            },
    {
        let flag = match self.read_u8() {
            Ok(f) => f,
            Err(e) => return Err(e),
        };
        if flag == 0 {
            Ok(None)
        } else {
            match self.read_string() {
                Ok(s) => Ok(Some(s)),
                Err(e) => Err(e),
            }
        }
    }
}

// ---------------------------------------------------------------------------
// Decode
// ---------------------------------------------------------------------------

/// The message for an opcode that cannot start a request.
fn not_request_error(b: u8) -> (e: ProtocolError)
    ensures
        e@ == ProtocolErrorView::InvalidPayload(not_request_message(b)),
{
    let mut m = String::from_str("opcode 0x");
    push_hex_byte(&mut m, b);
    m.append(" is not a valid request opcode");
    ProtocolError::InvalidPayload(m)
}

/// The message for an opcode that cannot start a response.
fn not_response_error(b: u8) -> (e: ProtocolError)
    ensures
        e@ == ProtocolErrorView::InvalidPayload(not_response_message(b)),
{
    let mut m = String::from_str("opcode 0x");
    push_hex_byte(&mut m, b);
    m.append(" is not a valid response opcode");
    ProtocolError::InvalidPayload(m)
}

/// Reads a selector string, a by-label flag and an optional type.
fn read_selector_query(cur: &mut Cursor) -> (r: Result<(String, bool, Option<String>), ProtocolError>)
    requires
        old(cur).pos <= old(cur).data@.len(),
    ensures
        match rd_selector_query(old(cur).data@, old(cur).pos as int) {
            Ok((a, b, c)) => r matches Ok((x, y, z)) && x@ == a && y == b && opt_view(z) == c,
            Err(e) => r matches Err(x) && x@ == e,
        },
{
    let selector = match cur.read_string() {
        Ok(v) => v,
        Err(e) => return Err(e),
    };
    let by_label = match cur.read_bool() {
        Ok(v) => v,
        Err(e) => return Err(e),
    };
    let element_type = match cur.read_optional_string() {
        Ok(v) => v,
        Err(e) => return Err(e),
    };
    Ok((selector, by_label, element_type))
}

/// Decode wire bytes (opcode + payload, **after** the 4-byte length header)
/// into a [`Request`].
pub fn decode_request(data: &[u8]) -> (r: Result<Request, ProtocolError>)
    ensures
        result_view(r) == spec_decode_request(data@),
{
    let mut cur = Cursor::new(data);
    let b = match cur.read_u8() {
        Ok(v) => v,
        Err(e) => return Err(e),
    };
    let opcode = match OpCode::from_u8(b) {
        Ok(op) => op,
        Err(e) => return Err(e),
    };
    match opcode {
        OpCode::Heartbeat => Ok(Request::Heartbeat),
        OpCode::TapCoord => {
            let x = match cur.read_i32() {
                Ok(v) => v,
                Err(e) => return Err(e),
            };
            let y = match cur.read_i32() {
                Ok(v) => v,
                Err(e) => return Err(e),
            };
            Ok(Request::TapCoord { x, y })
        },
        OpCode::TapElement => {
            let selector = match cur.read_string() {
                Ok(v) => v,
                Err(e) => return Err(e),
            };
            Ok(Request::TapElement { selector })
        },
        OpCode::TapByLabel => {
            let label = match cur.read_string() {
                Ok(v) => v,
                Err(e) => return Err(e),
            };
            Ok(Request::TapByLabel { label })
        },
        OpCode::TapWithType => {
            let selector = match cur.read_string() {
                Ok(v) => v,
                Err(e) => return Err(e),
            };
            let by_label = match cur.read_bool() {
                Ok(v) => v,
                Err(e) => return Err(e),
            };
            let element_type = match cur.read_string() {
                Ok(v) => v,
                Err(e) => return Err(e),
            };
            Ok(Request::TapWithType { selector, by_label, element_type })
        },
        OpCode::TypeText => {
            let text = match cur.read_string() {
                Ok(v) => v,
                Err(e) => return Err(e),
            };
            Ok(Request::TypeText { text })
        },
        OpCode::Swipe => {
            let start_x = match cur.read_i32() {
                Ok(v) => v,
                Err(e) => return Err(e),
            };
            let start_y = match cur.read_i32() {
                Ok(v) => v,
                Err(e) => return Err(e),
            };
            let end_x = match cur.read_i32() {
                Ok(v) => v,
                Err(e) => return Err(e),
            };
            let end_y = match cur.read_i32() {
                Ok(v) => v,
                Err(e) => return Err(e),
            };
            let has_duration = match cur.read_bool() {
                Ok(v) => v,
                Err(e) => return Err(e),
            };
            let duration = if has_duration {
                match cur.read_u64() {
                    Ok(v) => Some(v),
                    Err(e) => return Err(e),
                }
            } else {
                None
            };
            Ok(Request::Swipe { start_x, start_y, end_x, end_y, duration })
        },
        OpCode::GetValue => match read_selector_query(&mut cur) {
            Ok((selector, by_label, element_type)) => Ok(
                Request::GetValue { selector, by_label, element_type },
            ),
            Err(e) => Err(e),
        },
        OpCode::LongPress => {
            let x = match cur.read_i32() {
                Ok(v) => v,
                Err(e) => return Err(e),
            };
            let y = match cur.read_i32() {
                Ok(v) => v,
                Err(e) => return Err(e),
            };
            let duration = match cur.read_u64() {
                Ok(v) => v,
                Err(e) => return Err(e),
            };
            Ok(Request::LongPress { x, y, duration })
        },
        OpCode::DumpTree => Ok(Request::DumpTree),
        OpCode::Screenshot => Ok(Request::Screenshot),
        OpCode::SetTarget => {
            let bundle_id = match cur.read_string() {
                Ok(v) => v,
                Err(e) => return Err(e),
            };
            Ok(Request::SetTarget { bundle_id })
        },
        OpCode::FindElement => match read_selector_query(&mut cur) {
            Ok((selector, by_label, element_type)) => Ok(
                Request::FindElement { selector, by_label, element_type },
            ),
            Err(e) => Err(e),
        },
        OpCode::Error | OpCode::Response => Err(not_request_error(opcode.to_u8())),
    }
}

/// Decode wire bytes (opcode + payload, **after** the 4-byte length header)
/// into a [`Response`].
pub fn decode_response(data: &[u8]) -> (r: Result<Response, ProtocolError>)
    ensures
        result_view(r) == spec_decode_response(data@),
{
    let mut cur = Cursor::new(data);
    let b = match cur.read_u8() {
        Ok(v) => v,
        Err(e) => return Err(e),
    };
    let opcode = match OpCode::from_u8(b) {
        Ok(op) => op,
        Err(e) => return Err(e),
    };
    match opcode {
        OpCode::Response => {
            let t = match cur.read_u8() {
                Ok(v) => v,
                Err(e) => return Err(e),
            };
            let resp_type = match ResponseType::from_u8(t) {
                Ok(v) => v,
                Err(e) => return Err(e),
            };
            match resp_type {
                ResponseType::Success => Ok(Response::Success),
                ResponseType::Error => match cur.read_string() {
                    Ok(message) => Ok(Response::Error { message }),
                    Err(e) => Err(e),
                },
                ResponseType::Tree => match cur.read_string() {
                    Ok(json) => Ok(Response::Tree { json }),
                    Err(e) => Err(e),
                },
                ResponseType::Screenshot => match cur.read_bytes() {
                    Ok(data) => Ok(Response::Screenshot { data }),
                    Err(e) => Err(e),
                },
                ResponseType::Value => match cur.read_optional_string() {
                    Ok(value) => Ok(Response::Value { value }),
                    Err(e) => Err(e),
                },
                ResponseType::Element => match cur.read_string() {
                    Ok(json) => Ok(Response::Element { json }),
                    Err(e) => Err(e),
                },
            }
        },
        OpCode::Error => match cur.read_string() {
            Ok(message) => Ok(Response::Error { message }),
            Err(e) => Err(e),
        },
        _ => Err(not_response_error(b)),
    }
}

// ---------------------------------------------------------------------------
// Round-trip laws
// ---------------------------------------------------------------------------

/// `d` holds `e` at position `p`.
pub open spec fn holds_at(d: Seq<u8>, p: int, e: Seq<u8>) -> bool {
    0 <= p && p + e.len() <= d.len() && d.subrange(p, p + e.len()) == e
}

proof fn lemma_rd_u32_at(d: Seq<u8>, p: int, v: u32)
    requires
        holds_at(d, p, le_u32(v)),
    ensures
        rd_u32(d, p) == Ok::<(u32, int), ProtocolErrorView>((v, p + 4)),
{
    lemma_u32_roundtrip(v);
    assert(d[p] == d.subrange(p, p + 4)[0]);
    assert(d[p + 1] == d.subrange(p, p + 4)[1]);
    assert(d[p + 2] == d.subrange(p, p + 4)[2]);
    assert(d[p + 3] == d.subrange(p, p + 4)[3]);
}

proof fn lemma_rd_i32_at(d: Seq<u8>, p: int, v: i32)
    requires
        holds_at(d, p, le_i32(v)),
    ensures
        rd_i32(d, p) == Ok::<(i32, int), ProtocolErrorView>((v, p + 4)),
{
    lemma_rd_u32_at(d, p, v as u32);
    lemma_i32_roundtrip(v);
}

proof fn lemma_rd_u64_at(d: Seq<u8>, p: int, v: u64)
    requires
        holds_at(d, p, le_u64(v)),
    ensures
        rd_u64(d, p) == Ok::<(u64, int), ProtocolErrorView>((v, p + 8)),
{
    lemma_u64_roundtrip(v);
    let s = d.subrange(p, p + 8);
    assert(d[p] == s[0]);
    assert(d[p + 1] == s[1]);
    assert(d[p + 2] == s[2]);
    assert(d[p + 3] == s[3]);
    assert(d[p + 4] == s[4]);
    assert(d[p + 5] == s[5]);
    assert(d[p + 6] == s[6]);
    assert(d[p + 7] == s[7]);
}

proof fn lemma_rd_bool_at(d: Seq<u8>, p: int, v: bool)
    requires
        holds_at(d, p, enc_bool(v)),
    ensures
        rd_bool(d, p) == Ok::<(bool, int), ProtocolErrorView>((v, p + 1)),
{
    assert(d[p] == d.subrange(p, p + 1)[0]);
}

proof fn lemma_rd_bytes_at(d: Seq<u8>, p: int, b: Seq<u8>)
    requires
        holds_at(d, p, enc_bytes(b)),
        b.len() <= u32::MAX,
    ensures
        rd_bytes(d, p) == Ok::<(Seq<u8>, int), ProtocolErrorView>((b, p + 4 + b.len())),
{
    let e = enc_bytes(b);
    assert(d.subrange(p, p + 4) =~= e.subrange(0, 4));
    assert(e.subrange(0, 4) =~= le_u32(b.len() as u32));
    lemma_rd_u32_at(d, p, b.len() as u32);
    assert(d.subrange(p + 4, p + 4 + b.len()) =~= e.subrange(4, e.len() as int));
    assert(e.subrange(4, e.len() as int) =~= b);
}

proof fn lemma_rd_str_at(d: Seq<u8>, p: int, s: Seq<char>)
    requires
        holds_at(d, p, enc_str(s)),
        str_fits(s),
    ensures
        rd_str(d, p) == Ok::<(Seq<char>, int), ProtocolErrorView>((s, p + enc_str(s).len())),
{
    lemma_rd_bytes_at(d, p, encode_utf8(s));
}

proof fn lemma_rd_opt_str_at(d: Seq<u8>, p: int, o: Option<Seq<char>>)
    requires
        holds_at(d, p, enc_opt_str(o)),
        opt_str_fits(o),
    ensures
        rd_opt_str(d, p) == Ok::<(Option<Seq<char>>, int), ProtocolErrorView>(
            (o, p + enc_opt_str(o).len()),
        ),
{
    let e = enc_opt_str(o);
    assert(d[p] == d.subrange(p, p + e.len())[0]);
    match o {
        None => {},
        Some(s) => {
            assert(d.subrange(p + 1, p + 1 + enc_str(s).len()) =~= d.subrange(p, p + e.len()).subrange(1, e.len() as int));
            assert(e.subrange(1, e.len() as int) =~= enc_str(s));
            lemma_rd_str_at(d, p + 1, s);
        },
    }
}

/// `a + b` holds `b` right after `a`.
proof fn lemma_holds_after(a: Seq<u8>, b: Seq<u8>, c: Seq<u8>)
    ensures
        holds_at(a + b + c, a.len() as int, b),
        holds_at(a + b, a.len() as int, b),
{
    assert((a + b + c).subrange(a.len() as int, (a.len() + b.len()) as int) =~= b);
    assert((a + b).subrange(a.len() as int, (a.len() + b.len()) as int) =~= b);
}

proof fn lemma_single_str_fields(b: u8, s: Seq<char>)
    requires
        str_fits(s),
    ensures
        rd_str(seq![b] + enc_str(s), 1) == Ok::<(Seq<char>, int), ProtocolErrorView>(
            (s, 1 + enc_str(s).len() as int),
        ),
{
    lemma_holds_after(seq![b], enc_str(s), Seq::empty());
    lemma_rd_str_at(seq![b] + enc_str(s), 1, s);
}

proof fn lemma_query_fields(op: u8, selector: Seq<char>, by_label: bool, element_type: Option<Seq<char>>)
    requires
        str_fits(selector),
        opt_str_fits(element_type),
    ensures
        rd_selector_query(
            seq![op] + enc_str(selector) + enc_bool(by_label) + enc_opt_str(element_type),
            1,
        ) == Ok::<(Seq<char>, bool, Option<Seq<char>>), ProtocolErrorView>(
            (selector, by_label, element_type),
        ),
{
    let o = seq![op];
    let a = enc_str(selector);
    let b = enc_bool(by_label);
    let c = enc_opt_str(element_type);
    let d = o + a + b + c;
    lemma_holds_after(o, a, b + c);
    assert(o + a + (b + c) =~= d);
    lemma_holds_after(o + a, b, c);
    lemma_holds_after(o + a + b, c, Seq::empty());
    lemma_rd_str_at(d, 1, selector);
    lemma_rd_bool_at(d, 1 + a.len() as int, by_label);
    lemma_rd_opt_str_at(d, 1 + a.len() as int + 1, element_type);
}

proof fn lemma_tap_with_type_fields(selector: Seq<char>, by_label: bool, element_type: Seq<char>)
    requires
        str_fits(selector),
        str_fits(element_type),
    ensures
        ({
            let d = seq![0x05u8] + enc_str(selector) + enc_bool(by_label) + enc_str(element_type);
            &&& rd_str(d, 1) == Ok::<(Seq<char>, int), ProtocolErrorView>(
                (selector, 1 + enc_str(selector).len() as int),
            )
            &&& rd_bool(d, 1 + enc_str(selector).len() as int) == Ok::<(bool, int), ProtocolErrorView>(
                (by_label, 2 + enc_str(selector).len() as int),
            )
            &&& rd_str(d, 2 + enc_str(selector).len() as int) == Ok::<(Seq<char>, int), ProtocolErrorView>(
                (element_type, d.len() as int),
            )
        }),
{
    let o = seq![0x05u8];
    let a = enc_str(selector);
    let b = enc_bool(by_label);
    let c = enc_str(element_type);
    let d = o + a + b + c;
    lemma_holds_after(o, a, b + c);
    assert(o + a + (b + c) =~= d);
    lemma_holds_after(o + a, b, c);
    lemma_holds_after(o + a + b, c, Seq::empty());
    lemma_rd_str_at(d, 1, selector);
    lemma_rd_bool_at(d, 1 + a.len() as int, by_label);
    lemma_rd_str_at(d, 1 + a.len() as int + 1, element_type);
}

proof fn lemma_swipe_fields(start_x: i32, start_y: i32, end_x: i32, end_y: i32, duration: Option<u64>)
    ensures
        ({
            let d = seq![0x07u8] + le_i32(start_x) + le_i32(start_y) + le_i32(end_x) + le_i32(end_y)
                + enc_opt_u64(duration);
            &&& rd_i32(d, 1) == Ok::<(i32, int), ProtocolErrorView>((start_x, 5))
            &&& rd_i32(d, 5) == Ok::<(i32, int), ProtocolErrorView>((start_y, 9))
            &&& rd_i32(d, 9) == Ok::<(i32, int), ProtocolErrorView>((end_x, 13))
            &&& rd_i32(d, 13) == Ok::<(i32, int), ProtocolErrorView>((end_y, 17))
            &&& rd_bool(d, 17) == Ok::<(bool, int), ProtocolErrorView>((duration is Some, 18))
            &&& (duration matches Some(v) ==> rd_u64(d, 18) == Ok::<(u64, int), ProtocolErrorView>(
                (v, 26),
            ))
        }),
{
    let d = seq![0x07u8] + le_i32(start_x) + le_i32(start_y) + le_i32(end_x) + le_i32(end_y)
        + enc_opt_u64(duration);
    let t = enc_opt_u64(duration);
    assert(d.subrange(1, 5) =~= le_i32(start_x));
    assert(d.subrange(5, 9) =~= le_i32(start_y));
    assert(d.subrange(9, 13) =~= le_i32(end_x));
    assert(d.subrange(13, 17) =~= le_i32(end_y));
    lemma_rd_i32_at(d, 1, start_x);
    lemma_rd_i32_at(d, 5, start_y);
    lemma_rd_i32_at(d, 9, end_x);
    lemma_rd_i32_at(d, 13, end_y);
    assert(d[17] == t[0]);
    match duration {
        None => {},
        Some(v) => {
            assert(d.subrange(18, 26) =~= le_u64(v));
            lemma_rd_u64_at(d, 18, v);
        },
    }
}

proof fn lemma_point_fields(op: u8, x: i32, y: i32)
    ensures
        ({
            let d = seq![op] + le_i32(x) + le_i32(y);
            &&& rd_i32(d, 1) == Ok::<(i32, int), ProtocolErrorView>((x, 5))
            &&& rd_i32(d, 5) == Ok::<(i32, int), ProtocolErrorView>((y, 9))
        }),
{
    let d = seq![op] + le_i32(x) + le_i32(y);
    assert(d.subrange(1, 5) =~= le_i32(x));
    assert(d.subrange(5, 9) =~= le_i32(y));
    lemma_rd_i32_at(d, 1, x);
    lemma_rd_i32_at(d, 5, y);
}

proof fn lemma_long_press_fields(x: i32, y: i32, duration: u64)
    ensures
        ({
            let d = seq![0x09u8] + le_i32(x) + le_i32(y) + le_u64(duration);
            &&& rd_i32(d, 1) == Ok::<(i32, int), ProtocolErrorView>((x, 5))
            &&& rd_i32(d, 5) == Ok::<(i32, int), ProtocolErrorView>((y, 9))
            &&& rd_u64(d, 9) == Ok::<(u64, int), ProtocolErrorView>((duration, 17))
        }),
{
    let d = seq![0x09u8] + le_i32(x) + le_i32(y) + le_u64(duration);
    assert(d.subrange(1, 5) =~= le_i32(x));
    assert(d.subrange(5, 9) =~= le_i32(y));
    assert(d.subrange(9, 17) =~= le_u64(duration));
    lemma_rd_i32_at(d, 1, x);
    lemma_rd_i32_at(d, 5, y);
    lemma_rd_u64_at(d, 9, duration);
}

proof fn lemma_decode_tap_coord(x: i32, y: i32)
    requires
        true,
    ensures
        spec_decode_request(request_payload(RequestView::TapCoord { x, y })) == Ok::<RequestView, ProtocolErrorView>(
            RequestView::TapCoord { x, y },
        ),
{
    lemma_point_fields(0x02u8, x, y);
}

proof fn lemma_decode_tap_element(selector: Seq<char>)
    requires
        str_fits(selector),
    ensures
        spec_decode_request(request_payload(RequestView::TapElement { selector })) == Ok::<RequestView, ProtocolErrorView>(
            RequestView::TapElement { selector },
        ),
{
    lemma_single_str_fields(0x03u8, selector);
}

proof fn lemma_decode_tap_by_label(label: Seq<char>)
    requires
        str_fits(label),
    ensures
        spec_decode_request(request_payload(RequestView::TapByLabel { label })) == Ok::<RequestView, ProtocolErrorView>(
            RequestView::TapByLabel { label },
        ),
{
    lemma_single_str_fields(0x04u8, label);
}

proof fn lemma_decode_type_text(text: Seq<char>)
    requires
        str_fits(text),
    ensures
        spec_decode_request(request_payload(RequestView::TypeText { text })) == Ok::<RequestView, ProtocolErrorView>(
            RequestView::TypeText { text },
        ),
{
    lemma_single_str_fields(0x06u8, text);
}

proof fn lemma_decode_set_target(bundle_id: Seq<char>)
    requires
        str_fits(bundle_id),
    ensures
        spec_decode_request(request_payload(RequestView::SetTarget { bundle_id })) == Ok::<RequestView, ProtocolErrorView>(
            RequestView::SetTarget { bundle_id },
        ),
{
    lemma_single_str_fields(0x12u8, bundle_id);
}

proof fn lemma_decode_tap_with_type(selector: Seq<char>, by_label: bool, element_type: Seq<char>)
    requires
        str_fits(selector) && str_fits(element_type),
    ensures
        spec_decode_request(request_payload(RequestView::TapWithType { selector, by_label, element_type })) == Ok::<RequestView, ProtocolErrorView>(
            RequestView::TapWithType { selector, by_label, element_type },
        ),
{
    lemma_tap_with_type_fields(selector, by_label, element_type);
}

proof fn lemma_decode_get_value(selector: Seq<char>, by_label: bool, element_type: Option<Seq<char>>)
    requires
        str_fits(selector) && opt_str_fits(element_type),
    ensures
        spec_decode_request(request_payload(RequestView::GetValue { selector, by_label, element_type })) == Ok::<RequestView, ProtocolErrorView>(
            RequestView::GetValue { selector, by_label, element_type },
        ),
{
    lemma_query_fields(0x08u8, selector, by_label, element_type);
}

proof fn lemma_decode_find_element(selector: Seq<char>, by_label: bool, element_type: Option<Seq<char>>)
    requires
        str_fits(selector) && opt_str_fits(element_type),
    ensures
        spec_decode_request(request_payload(RequestView::FindElement { selector, by_label, element_type })) == Ok::<RequestView, ProtocolErrorView>(
            RequestView::FindElement { selector, by_label, element_type },
        ),
{
    lemma_query_fields(0x13u8, selector, by_label, element_type);
}

proof fn lemma_decode_swipe(start_x: i32, start_y: i32, end_x: i32, end_y: i32, duration: Option<u64>)
    requires
        true,
    ensures
        spec_decode_request(request_payload(RequestView::Swipe { start_x, start_y, end_x, end_y, duration })) == Ok::<RequestView, ProtocolErrorView>(
            RequestView::Swipe { start_x, start_y, end_x, end_y, duration },
        ),
{
    lemma_swipe_fields(start_x, start_y, end_x, end_y, duration);
}

proof fn lemma_decode_long_press(x: i32, y: i32, duration: u64)
    requires
        true,
    ensures
        spec_decode_request(request_payload(RequestView::LongPress { x, y, duration })) == Ok::<RequestView, ProtocolErrorView>(
            RequestView::LongPress { x, y, duration },
        ),
{
    lemma_long_press_fields(x, y, duration);
}

/// Decoding the encoding of a request gives the request back.
///
/// The payload after the 4-byte header of `encode_request(r)` decodes to `r`
/// whenever every string of `r` fits its `u32` length prefix.
pub proof fn lemma_request_roundtrip(r: RequestView)
    requires
        request_fits(r),
    ensures
        spec_decode_request(request_payload(r)) == Ok::<RequestView, ProtocolErrorView>(r),
{
    match r {
        RequestView::TapCoord { x, y } => lemma_decode_tap_coord(x, y),
        RequestView::TapElement { selector } => lemma_decode_tap_element(selector),
        RequestView::TapByLabel { label } => lemma_decode_tap_by_label(label),
        RequestView::TypeText { text } => lemma_decode_type_text(text),
        RequestView::SetTarget { bundle_id } => lemma_decode_set_target(bundle_id),
        RequestView::TapWithType { selector, by_label, element_type } => lemma_decode_tap_with_type(selector, by_label, element_type),
        RequestView::GetValue { selector, by_label, element_type } => lemma_decode_get_value(selector, by_label, element_type),
        RequestView::FindElement { selector, by_label, element_type } => lemma_decode_find_element(selector, by_label, element_type),
        RequestView::Swipe { start_x, start_y, end_x, end_y, duration } => lemma_decode_swipe(start_x, start_y, end_x, end_y, duration),
        RequestView::LongPress { x, y, duration } => lemma_decode_long_press(x, y, duration),
        _ => {},
    }
}

/// Decoding the encoding of a response gives the response back.
pub proof fn lemma_response_roundtrip(r: ResponseView)
    requires
        response_fits(r),
    ensures
        spec_decode_response(response_payload(r)) == Ok::<ResponseView, ProtocolErrorView>(r),
{
    let d = response_payload(r);
    let o = seq![0xA0u8, d[1]];
    match r {
        ResponseView::Error { message } => {
            lemma_holds_after(o, enc_str(message), Seq::empty());
            assert(d =~= o + enc_str(message));
            lemma_rd_str_at(d, 2, message);
        },
        ResponseView::Tree { json } => {
            lemma_holds_after(o, enc_str(json), Seq::empty());
            assert(d =~= o + enc_str(json));
            lemma_rd_str_at(d, 2, json);
        },
        ResponseView::Element { json } => {
            lemma_holds_after(o, enc_str(json), Seq::empty());
            assert(d =~= o + enc_str(json));
            lemma_rd_str_at(d, 2, json);
        },
        ResponseView::Screenshot { data } => {
            lemma_holds_after(o, enc_bytes(data), Seq::empty());
            assert(d =~= o + enc_bytes(data));
            lemma_rd_bytes_at(d, 2, data);
        },
        ResponseView::Value { value } => {
            lemma_holds_after(o, enc_opt_str(value), Seq::empty());
            assert(d =~= o + enc_opt_str(value));
            lemma_rd_opt_str_at(d, 2, value);
        },
        ResponseView::Success => {},
    }
}

/// What `encode_request` sends decodes, after its header, to the request
/// it was given; the header holds the payload's length.
pub proof fn lemma_request_wire_roundtrip(r: RequestView)
    requires
        request_fits(r),
        request_payload(r).len() <= u32::MAX,
    ensures
        ({
            let w = frame(request_payload(r));
            &&& u32_from_le(w[0], w[1], w[2], w[3]) == w.len() - 4
            &&& spec_decode_request(w.subrange(4, w.len() as int)) == Ok::<
                RequestView,
                ProtocolErrorView,
            >(r)
        }),
{
    lemma_frame_length(request_payload(r));
    lemma_request_roundtrip(r);
}

/// What `encode_response` sends decodes, after its header, to the response
/// it was given; the header holds the payload's length.
pub proof fn lemma_response_wire_roundtrip(r: ResponseView)
    requires
        response_fits(r),
        response_payload(r).len() <= u32::MAX,
    ensures
        ({
            let w = frame(response_payload(r));
            &&& u32_from_le(w[0], w[1], w[2], w[3]) == w.len() - 4
            &&& spec_decode_response(w.subrange(4, w.len() as int)) == Ok::<
                ResponseView,
                ProtocolErrorView,
            >(r)
        }),
{
    lemma_frame_length(response_payload(r));
    lemma_response_roundtrip(r);
}

// ---------------------------------------------------------------------------
// Wire layout
// ---------------------------------------------------------------------------

/// The little-endian `u32` read at offset `i` of `b`.
pub open spec fn u32_at(b: Seq<u8>, i: int) -> u32 {
    u32_from_le(b[i], b[i + 1], b[i + 2], b[i + 3])
}

/// The little-endian two's-complement `i32` read at offset `i` of `b`.
pub open spec fn i32_at(b: Seq<u8>, i: int) -> i32 {
    u32_at(b, i) as i32
}

/// The little-endian `u64` read at offset `i` of `b`.
pub open spec fn u64_at(b: Seq<u8>, i: int) -> u64 {
    u64_from_halves(u32_at(b, i), u32_at(b, i + 4))
}

/// The string field at offset `i` of `b`: its UTF-8 byte count as a
/// little-endian `u32`, then those bytes.
pub open spec fn str_field_at(b: Seq<u8>, i: int, s: Seq<char>) -> bool {
    &&& u32_at(b, i) as int == encode_utf8(s).len()
    &&& i + 4 + encode_utf8(s).len() <= b.len()
    &&& b.subrange(i + 4, i + 4 + encode_utf8(s).len()) == encode_utf8(s)
}

proof fn lemma_u32_at(pre: Seq<u8>, v: u32, post: Seq<u8>)
    ensures
        u32_at(pre + le_u32(v) + post, pre.len() as int) == v,
{
    let w = pre + le_u32(v) + post;
    let i = pre.len() as int;
    assert(w[i] == le_u32(v)[0]);
    assert(w[i + 1] == le_u32(v)[1]);
    assert(w[i + 2] == le_u32(v)[2]);
    assert(w[i + 3] == le_u32(v)[3]);
    lemma_u32_roundtrip(v);
}

proof fn lemma_i32_at(pre: Seq<u8>, v: i32, post: Seq<u8>)
    ensures
        i32_at(pre + le_i32(v) + post, pre.len() as int) == v,
{
    lemma_u32_at(pre, v as u32, post);
    assert(((v as u32) as i32) == v) by (bit_vector);
}

proof fn lemma_u64_at(pre: Seq<u8>, v: u64, post: Seq<u8>)
    ensures
        u64_at(pre + le_u64(v) + post, pre.len() as int) == v,
{
    let lo = le_u32((v & 0xffff_ffff) as u32);
    let hi = le_u32((v >> 32u64) as u32);
    assert(pre + le_u64(v) + post =~= pre + lo + (hi + post));
    assert(pre + le_u64(v) + post =~= (pre + lo) + hi + post);
    lemma_u32_at(pre, (v & 0xffff_ffff) as u32, hi + post);
    lemma_u32_at(pre + lo, (v >> 32u64) as u32, post);
    lemma_u64_roundtrip(v);
    assert(le_u64(v)[0] == lo[0] && le_u64(v)[4] == hi[0]);
}

proof fn lemma_str_at(pre: Seq<u8>, s: Seq<char>, post: Seq<u8>)
    requires
        str_fits(s),
    ensures
        str_field_at(pre + enc_str(s) + post, pre.len() as int, s),
{
    let u = encode_utf8(s);
    let w = pre + enc_str(s) + post;
    assert(w =~= pre + le_u32(u.len() as u32) + (u + post));
    lemma_u32_at(pre, u.len() as u32, u + post);
    let i = pre.len() as int;
    assert(w.subrange(i + 4, i + 4 + u.len()) =~= u);
}

/// The framed bytes of a request begin with the payload's length as a
/// little-endian `u32`; the opcode follows at offset 4.
pub proof fn lemma_request_header(r: RequestView)
    ensures
        frame(request_payload(r)).len() == request_payload(r).len() + 4,
        u32_at(frame(request_payload(r)), 0) == (request_payload(r).len() as u32),
        frame(request_payload(r))[4] == request_payload(r)[0],
{
    let p = request_payload(r);
    assert(frame(p) =~= Seq::<u8>::empty() + le_u32(p.len() as u32) + p);
    lemma_u32_at(Seq::<u8>::empty(), p.len() as u32, p);
}

/// A long press travels as 21 bytes: the length 17, opcode `0x09`, then
/// `x` at offset 5, `y` at offset 9 and the duration at offset 13, each
/// little-endian.
#[verifier::spinoff_prover]
pub proof fn lemma_long_press_layout(x: i32, y: i32, duration: u64)
    ensures
        ({
            let w = frame(request_payload(RequestView::LongPress { x, y, duration }));
            &&& w.len() == 21
            &&& u32_at(w, 0) == 17
            &&& w[4] == 0x09
            &&& i32_at(w, 5) == x
            &&& i32_at(w, 9) == y
            &&& u64_at(w, 13) == duration
        }),
{
    let r = RequestView::LongPress { x, y, duration };
    let w = frame(request_payload(r));
    lemma_request_header(r);
    let h = le_u32(17u32) + seq![0x09u8];
    assert(w =~= h + le_i32(x) + (le_i32(y) + le_u64(duration)));
    lemma_i32_at(h, x, le_i32(y) + le_u64(duration));
    assert(w =~= (h + le_i32(x)) + le_i32(y) + le_u64(duration));
    lemma_i32_at(h + le_i32(x), y, le_u64(duration));
    assert(w =~= (h + le_i32(x) + le_i32(y)) + le_u64(duration) + Seq::<u8>::empty());
    lemma_u64_at(h + le_i32(x) + le_i32(y), duration, Seq::<u8>::empty());
}

/// A coordinate tap travels as 13 bytes: opcode `0x02`, then `x` at offset
/// 5 and `y` at offset 9.
#[verifier::spinoff_prover]
pub proof fn lemma_tap_coord_layout(x: i32, y: i32)
    ensures
        ({
            let w = frame(request_payload(RequestView::TapCoord { x, y }));
            &&& w.len() == 13
            &&& u32_at(w, 0) == 9
            &&& w[4] == 0x02
            &&& i32_at(w, 5) == x
            &&& i32_at(w, 9) == y
        }),
{
    let r = RequestView::TapCoord { x, y };
    let w = frame(request_payload(r));
    lemma_request_header(r);
    let h = le_u32(9u32) + seq![0x02u8];
    assert(w =~= h + le_i32(x) + le_i32(y));
    lemma_i32_at(h, x, le_i32(y));
    assert(w =~= (h + le_i32(x)) + le_i32(y) + Seq::<u8>::empty());
    lemma_i32_at(h + le_i32(x), y, Seq::<u8>::empty());
}

/// A swipe travels as opcode `0x07`, then the start x and y and the end x
/// and y at offsets 5, 9, 13 and 17, then a presence byte at offset 21 and,
/// when present, the duration at offset 22.
#[verifier::spinoff_prover]
pub proof fn lemma_swipe_layout(
    start_x: i32,
    start_y: i32,
    end_x: i32,
    end_y: i32,
    duration: Option<u64>,
)
    ensures
        ({
            let w = frame(
                request_payload(RequestView::Swipe { start_x, start_y, end_x, end_y, duration }),
            );
            &&& w[4] == 0x07
            &&& i32_at(w, 5) == start_x
            &&& i32_at(w, 9) == start_y
            &&& i32_at(w, 13) == end_x
            &&& i32_at(w, 17) == end_y
            &&& w[21] == (if duration is Some {
                1u8
            } else {
                0u8
            })
            &&& match duration {
                Some(d) => w.len() == 30 && u64_at(w, 22) == d,
                None => w.len() == 22,
            }
        }),
{
    let r = RequestView::Swipe { start_x, start_y, end_x, end_y, duration };
    let p = request_payload(r);
    let w = frame(p);
    lemma_request_header(r);
    let h = le_u32(p.len() as u32) + seq![0x07u8];
    let t = enc_opt_u64(duration);
    let a = le_i32(start_x);
    let b = le_i32(start_y);
    let c = le_i32(end_x);
    let d = le_i32(end_y);
    assert(w =~= h + a + (b + c + d + t));
    lemma_i32_at(h, start_x, b + c + d + t);
    assert(w =~= (h + a) + b + (c + d + t));
    lemma_i32_at(h + a, start_y, c + d + t);
    assert(w =~= (h + a + b) + c + (d + t));
    lemma_i32_at(h + a + b, end_x, d + t);
    assert(w =~= (h + a + b + c) + d + t);
    lemma_i32_at(h + a + b + c, end_y, t);
    assert(w[21] == t[0]);
    match duration {
        Some(v) => {
            assert(w =~= (h + a + b + c + d + seq![1u8]) + le_u64(v) + Seq::<u8>::empty());
            lemma_u64_at(h + a + b + c + d + seq![1u8], v, Seq::<u8>::empty());
        },
        None => {},
    }
}

/// A request without fields travels as its opcode alone: `0x01` for a
/// heartbeat, `0x10` for a tree dump, `0x11` for a screenshot.
pub proof fn lemma_bare_request_layout()
    ensures
        frame(request_payload(RequestView::Heartbeat)).len() == 5,
        frame(request_payload(RequestView::Heartbeat))[4] == 0x01,
        frame(request_payload(RequestView::DumpTree)).len() == 5,
        frame(request_payload(RequestView::DumpTree))[4] == 0x10,
        frame(request_payload(RequestView::Screenshot)).len() == 5,
        frame(request_payload(RequestView::Screenshot))[4] == 0x11,
{
    lemma_request_header(RequestView::Heartbeat);
    lemma_request_header(RequestView::DumpTree);
    lemma_request_header(RequestView::Screenshot);
}

/// A request with one string field travels as its opcode (`0x03` tap by
/// identifier, `0x04` tap by label, `0x06` typing, `0x12` set target), then
/// the string at offset 5, and nothing after it.
#[verifier::spinoff_prover]
pub proof fn lemma_string_request_layout(s: Seq<char>)
    requires
        str_fits(s),
    ensures
        ({
            let n = encode_utf8(s).len();
            let a = frame(request_payload(RequestView::TapElement { selector: s }));
            let b = frame(request_payload(RequestView::TapByLabel { label: s }));
            let c = frame(request_payload(RequestView::TypeText { text: s }));
            let d = frame(request_payload(RequestView::SetTarget { bundle_id: s }));
            &&& a[4] == 0x03 && str_field_at(a, 5, s) && a.len() == 9 + n
            &&& b[4] == 0x04 && str_field_at(b, 5, s) && b.len() == 9 + n
            &&& c[4] == 0x06 && str_field_at(c, 5, s) && c.len() == 9 + n
            &&& d[4] == 0x12 && str_field_at(d, 5, s) && d.len() == 9 + n
        }),
{
    let ra = RequestView::TapElement { selector: s };
    let rb = RequestView::TapByLabel { label: s };
    let rc = RequestView::TypeText { text: s };
    let rd = RequestView::SetTarget { bundle_id: s };
    let e = enc_str(s);
    let h = le_u32((e.len() + 1) as u32);
    assert(request_payload(ra) == seq![0x03u8] + e);
    assert(request_payload(rb) == seq![0x04u8] + e);
    assert(request_payload(rc) == seq![0x06u8] + e);
    assert(request_payload(rd) == seq![0x12u8] + e);
    layout_one(h, 0x03u8, s);
    layout_one(h, 0x04u8, s);
    layout_one(h, 0x06u8, s);
    layout_one(h, 0x12u8, s);
    assert(frame(seq![0x03u8] + e) == h + (seq![0x03u8] + e));
    assert(frame(seq![0x04u8] + e) == h + (seq![0x04u8] + e));
    assert(frame(seq![0x06u8] + e) == h + (seq![0x06u8] + e));
    assert(frame(seq![0x12u8] + e) == h + (seq![0x12u8] + e));
}

/// The layout of an opcode and one string.
#[verifier::spinoff_prover]
proof fn layout_one(h: Seq<u8>, op: u8, s: Seq<char>)
    requires
        h.len() == 4,
        str_fits(s),
    ensures
        ({
            let w = h + (seq![op] + enc_str(s));
            &&& w[4] == op
            &&& str_field_at(w, 5, s)
            &&& w.len() == 9 + encode_utf8(s).len()
        }),
{
    let e = enc_str(s);
    let hh = h + seq![op];
    assert(h + (seq![op] + e) =~= hh + e + Seq::<u8>::empty());
    lemma_str_at(hh, s, Seq::<u8>::empty());
}

/// A typed tap travels as opcode `0x05`, the selector at offset 5, then
/// right after it the by-label byte (`1` or `0`), then the element type.
#[verifier::spinoff_prover]
pub proof fn lemma_tap_with_type_layout(selector: Seq<char>, by_label: bool, element_type: Seq<char>)
    requires
        str_fits(selector),
        str_fits(element_type),
    ensures
        ({
            let w = frame(request_payload(RequestView::TapWithType { selector, by_label, element_type }));
            let k = 9 + encode_utf8(selector).len() as int;
            &&& w[4] == 0x05
            &&& str_field_at(w, 5, selector)
            &&& w[k] == (if by_label {
                1u8
            } else {
                0u8
            })
            &&& str_field_at(w, k + 1, element_type)
            &&& w.len() == k + 5 + encode_utf8(element_type).len()
        }),
{
    let r = RequestView::TapWithType { selector, by_label, element_type };
    let es = enc_str(selector);
    let f = enc_bool(by_label);
    let et = enc_str(element_type);
    let p = seq![0x05u8] + es + f + et;
    assert(request_payload(r) == p);
    layout_three(le_u32(p.len() as u32), 0x05u8, selector, f, element_type);
    assert(frame(p) =~= le_u32(p.len() as u32) + p);
}

/// The layout of an opcode, a string, one flag byte and a second string.
#[verifier::spinoff_prover]
#[verifier::rlimit(60)]
proof fn layout_three(h: Seq<u8>, op: u8, a: Seq<char>, f: Seq<u8>, b: Seq<char>)
    requires
        h.len() == 4,
        f.len() == 1,
        str_fits(a),
        str_fits(b),
    ensures
        ({
            let w = h + (seq![op] + enc_str(a) + f + enc_str(b));
            let k = 9 + encode_utf8(a).len() as int;
            &&& w[4] == op
            &&& str_field_at(w, 5, a)
            &&& w[k] == f[0]
            &&& str_field_at(w, k + 1, b)
            &&& w.len() == k + 5 + encode_utf8(b).len()
        }),
{
    let ea = enc_str(a);
    let eb = enc_str(b);
    let w = h + (seq![op] + ea + f + eb);
    let hh = h + seq![op];
    let k = 9 + encode_utf8(a).len() as int;
    assert(ea.len() == 4 + encode_utf8(a).len());
    assert(w =~= hh + ea + (f + eb)) by {
        assert(h + (seq![op] + ea + f + eb) =~= hh + ea + (f + eb));
    }
    lemma_str_at(hh, a, f + eb);
    let pre = hh + ea + f;
    assert(w =~= pre + eb + Seq::<u8>::empty()) by {
        assert(h + (seq![op] + ea + f + eb) =~= pre + eb + Seq::<u8>::empty());
    }
    lemma_str_at(pre, b, Seq::<u8>::empty());
    assert(pre.len() == k + 1);
    assert(w[k] == pre[k]);
    assert(pre[k] == f[0]);
}

/// A value read (`0x08`) or element lookup (`0x13`) travels as its opcode,
/// the selector at offset 5, then right after it the by-label byte, a
/// presence byte for the type filter, and the filter when present.
#[verifier::spinoff_prover]
pub proof fn lemma_selector_query_layout(
    selector: Seq<char>,
    by_label: bool,
    element_type: Option<Seq<char>>,
)
    requires
        str_fits(selector),
        opt_str_fits(element_type),
    ensures
        ({
            let g = frame(request_payload(RequestView::GetValue { selector, by_label, element_type }));
            let f = frame(request_payload(RequestView::FindElement { selector, by_label, element_type }));
            let k = 9 + encode_utf8(selector).len() as int;
            &&& g[4] == 0x08
            &&& f[4] == 0x13
            &&& g.len() == f.len()
            &&& forall|i: int| 5 <= i < g.len() ==> #[trigger] g[i] == f[i]
            &&& str_field_at(g, 5, selector)
            &&& g[k] == (if by_label {
                1u8
            } else {
                0u8
            })
            &&& g[k + 1] == (if element_type is Some {
                1u8
            } else {
                0u8
            })
            &&& match element_type {
                Some(t) => str_field_at(g, k + 2, t) && g.len() == k + 6 + encode_utf8(t).len(),
                None => g.len() == k + 2,
            }
        }),
{
    let rg = RequestView::GetValue { selector, by_label, element_type };
    let rf = RequestView::FindElement { selector, by_label, element_type };
    let tail = enc_str(selector) + enc_bool(by_label) + enc_opt_str(element_type);
    let pg = seq![0x08u8] + tail;
    let pf = seq![0x13u8] + tail;
    assert(request_payload(rg) == pg);
    assert(request_payload(rf) == pf);
    let h = le_u32(pg.len() as u32);
    assert(frame(pg) =~= h + pg);
    assert(frame(pf) =~= h + pf);
    layout_query(h, selector, enc_bool(by_label), element_type);
    let g = h + pg;
    let f = h + pf;
    assert forall|i: int| 5 <= i < g.len() implies #[trigger] g[i] == f[i] by {
        assert(g[i] == tail[i - 5]);
        assert(f[i] == tail[i - 5]);
    }
}

/// The layout of a string, one flag byte and an optional string behind an
/// opcode.
#[verifier::spinoff_prover]
#[verifier::rlimit(60)]
proof fn layout_query(h: Seq<u8>, a: Seq<char>, fl: Seq<u8>, b: Option<Seq<char>>)
    requires
        h.len() == 4,
        fl.len() == 1,
        str_fits(a),
        opt_str_fits(b),
    ensures
        ({
            let w = h + (seq![0x08u8] + (enc_str(a) + fl + enc_opt_str(b)));
            let k = 9 + encode_utf8(a).len() as int;
            &&& w[4] == 0x08
            &&& str_field_at(w, 5, a)
            &&& w[k] == fl[0]
            &&& w[k + 1] == (if b is Some {
                1u8
            } else {
                0u8
            })
            &&& match b {
                Some(t) => str_field_at(w, k + 2, t) && w.len() == k + 6 + encode_utf8(t).len(),
                None => w.len() == k + 2,
            }
        }),
{
    let ea = enc_str(a);
    let o = enc_opt_str(b);
    let w = h + (seq![0x08u8] + (ea + fl + o));
    let hh = h + seq![0x08u8];
    let k = 9 + encode_utf8(a).len() as int;
    assert(ea.len() == 4 + encode_utf8(a).len());
    assert(w =~= hh + ea + (fl + o)) by {
        assert(h + (seq![0x08u8] + (ea + fl + o)) =~= hh + ea + (fl + o));
    }
    lemma_str_at(hh, a, fl + o);
    let pre = hh + ea + fl;
    assert(pre.len() == k + 1);
    assert(w =~= pre + o) by {
        assert(h + (seq![0x08u8] + (ea + fl + o)) =~= pre + o);
    }
    assert(w[k] == pre[k]);
    assert(pre[k] == fl[0]);
    assert(w[k + 1] == o[0]);
    match b {
        Some(t) => {
            let et = enc_str(t);
            assert(o == seq![1u8] + et);
            let pre2 = pre + seq![1u8];
            assert(w =~= pre2 + et + Seq::<u8>::empty()) by {
                assert(pre + o =~= pre2 + et + Seq::<u8>::empty());
            }
            lemma_str_at(pre2, t, Seq::<u8>::empty());
        },
        None => {},
    }
}

/// Responses travel as opcode `0xA0`, a sub-type byte (`0x00` success,
/// `0x01` error, `0x02` tree, `0x03` screenshot, `0x04` value, `0x05`
/// element), then their field at offset 6; a value carries a presence byte
/// there and its string at offset 7.
#[verifier::spinoff_prover]
pub proof fn lemma_response_layout(r: ResponseView)
    requires
        response_fits(r),
    ensures
        ({
            let w = frame(response_payload(r));
            &&& u32_at(w, 0) == ((w.len() - 4) as u32)
            &&& w[4] == 0xA0
            &&& match r {
                ResponseView::Success => w[5] == 0x00 && w.len() == 6,
                ResponseView::Error { message } => w[5] == 0x01 && str_field_at(w, 6, message),
                ResponseView::Tree { json } => w[5] == 0x02 && str_field_at(w, 6, json),
                ResponseView::Screenshot { data } => w[5] == 0x03 && u32_at(w, 6) as int
                    == data.len() && w.subrange(10, w.len() as int) == data,
                ResponseView::Value { value } => w[5] == 0x04 && match value {
                    Some(v) => w[6] == 1 && str_field_at(w, 7, v),
                    None => w[6] == 0 && w.len() == 7,
                },
                ResponseView::Element { json } => w[5] == 0x05 && str_field_at(w, 6, json),
            }
        }),
{
    let p = response_payload(r);
    let w = frame(p);
    let h = le_u32(p.len() as u32);
    assert(w =~= Seq::<u8>::empty() + h + p);
    lemma_u32_at(Seq::<u8>::empty(), p.len() as u32, p);
    match r {
        ResponseView::Success => {},
        ResponseView::Error { message } => {
            assert(w =~= (h + seq![0xA0u8, 0x01u8]) + enc_str(message) + Seq::<u8>::empty());
            lemma_str_at(h + seq![0xA0u8, 0x01u8], message, Seq::<u8>::empty());
        },
        ResponseView::Tree { json } => {
            assert(w =~= (h + seq![0xA0u8, 0x02u8]) + enc_str(json) + Seq::<u8>::empty());
            lemma_str_at(h + seq![0xA0u8, 0x02u8], json, Seq::<u8>::empty());
        },
        ResponseView::Screenshot { data } => {
            assert(w =~= (h + seq![0xA0u8, 0x03u8]) + le_u32(data.len() as u32) + data);
            lemma_u32_at(h + seq![0xA0u8, 0x03u8], data.len() as u32, data);
            assert(w.subrange(10, w.len() as int) =~= data);
        },
        ResponseView::Value { value } => match value {
            Some(v) => {
                assert(w =~= (h + seq![0xA0u8, 0x04u8, 1u8]) + enc_str(v) + Seq::<u8>::empty());
                lemma_str_at(h + seq![0xA0u8, 0x04u8, 1u8], v, Seq::<u8>::empty());
            },
            None => {},
        },
        ResponseView::Element { json } => {
            assert(w =~= (h + seq![0xA0u8, 0x05u8]) + enc_str(json) + Seq::<u8>::empty());
            lemma_str_at(h + seq![0xA0u8, 0x05u8], json, Seq::<u8>::empty());
        },
    }
}

} // verus!
