//! The two error taxonomies: data-plane `ProtocolError` and control-plane
//! `HandshakeError`, with the HTTP reply each handshake failure maps to.
use vstd::prelude::*;

verus! {

/// Websocket protocol errors. Each one is fatal to its connection.
#[derive(Debug, Clone, Copy, PartialEq, Eq, Structural)]
pub enum ProtocolError {
    /// Received an unmasked frame from client
    UnmaskedFrame,
    /// Received a masked frame from server
    MaskedFrame,
    /// Encountered invalid opcode
    InvalidOpcode(u8),
    /// Invalid control frame length
    InvalidLength(usize),
    /// Bad web socket op code
    BadOpCode,
    /// A payload reached size limit.
    Overflow,
    /// Continuation is not supported
    NoContinuation,
    /// Bad utf-8 encoding
    BadEncoding,
    /// A close frame carried a code that must never appear on the wire
    InvalidCloseCode(u16),
    /// The transport failed underneath the codec
    Io,
}

/// Websocket handshake errors
#[derive(Debug, Clone, Copy, PartialEq, Eq, Structural)]
pub enum HandshakeError {
    /// Only get method is allowed
    GetMethodRequired,
    /// Upgrade header if not set to websocket
    NoWebsocketUpgrade,
    /// Connection header is not set to upgrade
    NoConnectionUpgrade,
    /// Websocket version header is not set
    NoVersionHeader,
    /// Unsupported websocket version
    UnsupportedVersion,
    /// Websocket key is not set or wrong
    BadWebsocketKey,
}

impl ProtocolError {
    /// Display text of the error kind; the value an `InvalidOpcode`,
    /// `InvalidLength` or `InvalidCloseCode` carries goes after it.
    pub fn description(&self) -> (r: &'static str)
        ensures
            r@ == protocol_text(*self),
    {
        match *self {
            ProtocolError::UnmaskedFrame => "Received an unmasked frame from client",
            ProtocolError::MaskedFrame => "Received a masked frame from server",
            ProtocolError::InvalidOpcode(_) => "Invalid opcode",
            ProtocolError::InvalidLength(_) => "Invalid control frame length",
            ProtocolError::BadOpCode => "Bad web socket op code",
            ProtocolError::Overflow => "A payload reached size limit.",
            ProtocolError::NoContinuation => "Continuation is not supported.",
            ProtocolError::BadEncoding => "Bad utf-8 encoding.",
            ProtocolError::InvalidCloseCode(_) => "Invalid close code",
            ProtocolError::Io => "io error",
        }
    }
}

pub open spec fn protocol_text(e: ProtocolError) -> Seq<char> {
    match e {
        ProtocolError::UnmaskedFrame => "Received an unmasked frame from client"@,
        ProtocolError::MaskedFrame => "Received a masked frame from server"@,
        ProtocolError::InvalidOpcode(_) => "Invalid opcode"@,
        ProtocolError::InvalidLength(_) => "Invalid control frame length"@,
        ProtocolError::BadOpCode => "Bad web socket op code"@,
        ProtocolError::Overflow => "A payload reached size limit."@,
        ProtocolError::NoContinuation => "Continuation is not supported."@,
        ProtocolError::BadEncoding => "Bad utf-8 encoding."@,
        ProtocolError::InvalidCloseCode(_) => "Invalid close code"@,
        ProtocolError::Io => "io error"@,
    }
}

pub open spec fn handshake_text(e: HandshakeError) -> Seq<char> {
    match e {
        HandshakeError::GetMethodRequired => "Method not allowed"@,
        HandshakeError::NoWebsocketUpgrade => "Websocket upgrade is expected"@,
        HandshakeError::NoConnectionUpgrade => "Connection upgrade is expected"@,
        HandshakeError::NoVersionHeader => "Websocket version header is required"@,
        HandshakeError::UnsupportedVersion => "Unsupported version"@,
        HandshakeError::BadWebsocketKey => "Unknown websocket key"@,
    }
}

/// The HTTP reply sent in place of an upgrade.
#[derive(Debug, Clone, Copy)]
pub struct ErrorResponse {
    pub status: u16,
    /// Value of the `Allow` header, where one is sent
    pub allow: Option<&'static str>,
    /// Reason phrase, where one replaces the standard one
    pub reason: Option<&'static str>,
}

/// 405 for a wrong method, 400 for every other handshake failure.
pub open spec fn status_of(e: HandshakeError) -> u16 {
    match e {
        HandshakeError::GetMethodRequired => 405,
        _ => 400,
    }
}

pub open spec fn reason_of(e: HandshakeError) -> Option<Seq<char>> {
    match e {
        HandshakeError::GetMethodRequired => None,
        HandshakeError::NoWebsocketUpgrade => Some("No WebSocket UPGRADE header found"@),
        HandshakeError::NoConnectionUpgrade => Some("No CONNECTION upgrade"@),
        HandshakeError::NoVersionHeader => Some("Websocket version header is required"@),
        HandshakeError::UnsupportedVersion => Some("Unsupported version"@),
        HandshakeError::BadWebsocketKey => Some("Handshake error"@),
    }
}

pub open spec fn allow_of(e: HandshakeError) -> Option<Seq<char>> {
    match e {
        HandshakeError::GetMethodRequired => Some("GET"@),
        _ => None,
    }
}

pub open spec fn opt_str_view(o: Option<&'static str>) -> Option<Seq<char>> {
    match o {
        Some(s) => Some(s@),
        None => None,
    }
}

impl HandshakeError {
    /// Display text of the error.
    pub fn description(&self) -> (r: &'static str)
        ensures
            r@ == handshake_text(*self),
    {
        match *self {
            HandshakeError::GetMethodRequired => "Method not allowed",
            HandshakeError::NoWebsocketUpgrade => "Websocket upgrade is expected",
            HandshakeError::NoConnectionUpgrade => "Connection upgrade is expected",
            HandshakeError::NoVersionHeader => "Websocket version header is required",
            HandshakeError::UnsupportedVersion => "Unsupported version",
            HandshakeError::BadWebsocketKey => "Unknown websocket key",
        }
    }

    /// The HTTP failure response for this error.
    pub fn error_response(&self) -> (r: ErrorResponse)
        ensures
            r.status == status_of(*self),
            opt_str_view(r.allow) == allow_of(*self),
            opt_str_view(r.reason) == reason_of(*self),
    {
        match *self {
            HandshakeError::GetMethodRequired => ErrorResponse {
                status: 405,
                allow: Some("GET"),
                reason: None,
            },
            HandshakeError::NoWebsocketUpgrade => ErrorResponse {
                status: 400,
                allow: None,
                reason: Some("No WebSocket UPGRADE header found"),
            },
            HandshakeError::NoConnectionUpgrade => ErrorResponse {
                status: 400,
                allow: None,
                reason: Some("No CONNECTION upgrade"),
            },
            HandshakeError::NoVersionHeader => ErrorResponse {
                status: 400,
                allow: None,
                reason: Some("Websocket version header is required"),
            },
            HandshakeError::UnsupportedVersion => ErrorResponse {
                status: 400,
                allow: None,
                reason: Some("Unsupported version"),
            },
            HandshakeError::BadWebsocketKey => ErrorResponse {
                status: 400,
                allow: None,
                reason: Some("Handshake error"),
            },
        }
    }
}

} // verus!
