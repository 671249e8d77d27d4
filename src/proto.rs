//! Protocol types: opcodes, close codes and close reasons.
use vstd::prelude::*;

verus! {

/// Operation codes of a frame.
#[derive(Debug, Clone, Copy, PartialEq, Eq, Structural)]
pub enum OpCode {
    /// Indicates a continuation frame of a fragmented message.
    Continue,
    /// Indicates a text data frame.
    Text,
    /// Indicates a binary data frame.
    Binary,
    /// Indicates a close control frame.
    Close,
    /// Indicates a ping control frame.
    Ping,
    /// Indicates a pong control frame.
    Pong,
}

/// The opcode that a 4-bit code names; the reserved codes name none.
pub open spec fn opcode_of(b: u8) -> Option<OpCode> {
    if b == 0 {
        Some(OpCode::Continue)
    } else if b == 1 {
        Some(OpCode::Text)
    } else if b == 2 {
        Some(OpCode::Binary)
    } else if b == 8 {
        Some(OpCode::Close)
    } else if b == 9 {
        Some(OpCode::Ping)
    } else if b == 10 {
        Some(OpCode::Pong)
    } else {
        None
    }
}

pub open spec fn opcode_code(op: OpCode) -> u8 {
    match op {
        OpCode::Continue => 0,
        OpCode::Text => 1,
        OpCode::Binary => 2,
        OpCode::Close => 8,
        OpCode::Ping => 9,
        OpCode::Pong => 10,
    }
}

/// Close, Ping and Pong.
pub open spec fn is_control(op: OpCode) -> bool {
    op == OpCode::Close || op == OpCode::Ping || op == OpCode::Pong
}

impl OpCode {
    pub fn from_code(b: u8) -> (r: Option<OpCode>)
        ensures
            r == opcode_of(b),
    {
        if b == 0 {
            Some(OpCode::Continue)
        } else if b == 1 {
            Some(OpCode::Text)
        } else if b == 2 {
            Some(OpCode::Binary)
        } else if b == 8 {
            Some(OpCode::Close)
        } else if b == 9 {
            Some(OpCode::Ping)
        } else if b == 10 {
            Some(OpCode::Pong)
        } else {
            None
        }
    }

    pub fn code(&self) -> (r: u8)
        ensures
            r == opcode_code(*self),
            opcode_of(r) == Some(*self),
    {
        match *self {
            OpCode::Continue => 0,
            OpCode::Text => 1,
            OpCode::Binary => 2,
            OpCode::Close => 8,
            OpCode::Ping => 9,
            OpCode::Pong => 10,
        }
    }

    pub fn is_control(&self) -> (r: bool)
        ensures
            r == is_control(*self),
    {
        match *self {
            OpCode::Close | OpCode::Ping | OpCode::Pong => true,
            _ => false,
        }
    }
}

/// A close code may stand on the wire: it lies in 1000..=4999 and outside
/// the reserved ranges 1004..=1006 and 1015..=2999.
pub open spec fn close_code_valid(c: u16) -> bool {
    1000 <= c && c <= 4999 && !(1004 <= c && c <= 1006) && !(1015 <= c && c <= 2999)
}

/// Status code carried by a close frame.
#[derive(Debug, Clone, Copy, PartialEq, Eq, Structural)]
pub struct CloseCode {
    pub code: u16,
}

impl CloseCode {
    pub const NORMAL: u16 = 1000;
    pub const AWAY: u16 = 1001;
    pub const PROTOCOL: u16 = 1002;
    pub const UNSUPPORTED: u16 = 1003;
    pub const INVALID: u16 = 1007;
    pub const POLICY: u16 = 1008;
    pub const SIZE: u16 = 1009;
    pub const EXTENSION: u16 = 1010;
    pub const ERROR: u16 = 1011;
    pub const RESTART: u16 = 1012;
    pub const AGAIN: u16 = 1013;

    pub fn is_valid(&self) -> (r: bool)
        ensures
            r == close_code_valid(self.code),
    {
        let c = self.code;
        1000 <= c && c <= 4999 && !(1004 <= c && c <= 1006) && !(1015 <= c && c <= 2999)
    }
}

/// Reason for closing the connection: a code and an optional text.
#[derive(Debug, Clone, PartialEq, Eq)]
pub struct CloseReason {
    pub code: CloseCode,
    pub description: Option<String>,
}

} // verus!
