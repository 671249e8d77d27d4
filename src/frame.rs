//! The frame model and the frame parser: one RFC 6455 frame read from the
//! front of a byte buffer, with every framing rule checked.
use vstd::prelude::*;

use crate::error::ProtocolError;
use crate::mask::{mask, masked};
use crate::proto::{is_control, opcode_of, OpCode};

verus! {

/// Which end of the connection the codec works for. A server reads masked
/// frames and writes plain ones; a client does the opposite.
#[derive(Debug, Clone, Copy, PartialEq, Eq, Structural)]
pub enum Role {
    Server,
    Client,
}

/// One frame as read from the wire, payload already unmasked.
#[derive(Debug, Clone, PartialEq, Eq)]
pub struct Frame {
    pub finished: bool,
    pub opcode: OpCode,
    pub payload: Vec<u8>,
}

/// What reading one frame from the front of a buffer gives.
pub enum FrameParse {
    /// More bytes are needed; none are consumed.
    Incomplete,
    Failed(ProtocolError),
    Parsed { fin: bool, opcode: OpCode, payload: Seq<u8>, consumed: nat },
}

pub open spec fn fin_bit(b0: u8) -> bool {
    b0 >= 128
}

pub open spec fn rsv_bits(b0: u8) -> u8 {
    ((b0 / 16) % 8) as u8
}

pub open spec fn op_bits(b0: u8) -> u8 {
    (b0 % 16) as u8
}

pub open spec fn mask_bit(b1: u8) -> bool {
    b1 >= 128
}

pub open spec fn len7(b1: u8) -> u8 {
    (b1 % 128) as u8
}

/// Bytes of extended length that follow the two header bytes.
pub open spec fn ext_size(l7: u8) -> int {
    if l7 == 126 {
        2
    } else if l7 == 127 {
        8
    } else {
        0
    }
}

pub open spec fn be16(b: Seq<u8>, at: int) -> int {
    b[at] as int * 256 + b[at + 1] as int
}

pub open spec fn be64(b: Seq<u8>, at: int) -> u64 {
    ((b[at] as u64) << 56u64) | ((b[at + 1] as u64) << 48u64) | ((b[at + 2] as u64) << 40u64)
        | ((b[at + 3] as u64) << 32u64) | ((b[at + 4] as u64) << 24u64) | ((b[at + 5] as u64)
        << 16u64) | ((b[at + 6] as u64) << 8u64) | (b[at + 7] as u64)
}

/// The payload length that the header declares (7, 16 or 64 bits).
pub open spec fn declared_len(b: Seq<u8>) -> int {
    let l7 = len7(b[1]);
    if l7 == 126 {
        be16(b, 2)
    } else if l7 == 127 {
        be64(b, 2) as int
    } else {
        l7 as int
    }
}

/// Read one frame from the front of `b`, for `role`, with payloads above
/// `max` refused. The checks run in wire order: reserved bits and opcode,
/// length and its ceiling, the control-frame limit, then the masking rule
/// of the role, and the payload last.
pub open spec fn parse_frame(role: Role, max: usize, b: Seq<u8>) -> FrameParse {
    if b.len() < 2 {
        FrameParse::Incomplete
    } else if rsv_bits(b[0]) != 0 {
        FrameParse::Failed(ProtocolError::BadOpCode)
    } else if opcode_of(op_bits(b[0])) is None {
        FrameParse::Failed(ProtocolError::InvalidOpcode(op_bits(b[0])))
    } else if b.len() < 2 + ext_size(len7(b[1])) {
        FrameParse::Incomplete
    } else {
        let op = opcode_of(op_bits(b[0]))->0;
        let len = declared_len(b);
        let hl = 2 + ext_size(len7(b[1]));
        let m = mask_bit(b[1]);
        let kl: int = if m { 4 } else { 0 };
        if len > max {
            FrameParse::Failed(ProtocolError::Overflow)
        } else if is_control(op) && len > 125 {
            FrameParse::Failed(ProtocolError::InvalidLength(len as usize))
        } else if b.len() < hl + kl {
            FrameParse::Incomplete
        } else if role == Role::Server && !m {
            FrameParse::Failed(ProtocolError::UnmaskedFrame)
        } else if role == Role::Client && m {
            FrameParse::Failed(ProtocolError::MaskedFrame)
        } else if b.len() < hl + kl + len {
            FrameParse::Incomplete
        } else {
            let raw = b.subrange(hl + kl, hl + kl + len);
            FrameParse::Parsed {
                fin: fin_bit(b[0]),
                opcode: op,
                payload: if m {
                    masked(b.subrange(hl, hl + 4), raw)
                } else {
                    raw
                },
                consumed: (hl + kl + len) as nat,
            }
        }
    }
}

/// The frame parser's result matches `parse_frame`.
pub open spec fn parse_matches(
    role: Role,
    max: usize,
    b: Seq<u8>,
    r: Result<Option<(Frame, usize)>, ProtocolError>,
) -> bool {
    match parse_frame(role, max, b) {
        FrameParse::Incomplete => r == Ok::<Option<(Frame, usize)>, ProtocolError>(None),
        FrameParse::Failed(e) => r == Err::<Option<(Frame, usize)>, ProtocolError>(e),
        FrameParse::Parsed { fin, opcode, payload, consumed } => r is Ok && r->Ok_0 is Some && {
            let (f, n) = r->Ok_0->0;
            f.finished == fin && f.opcode == opcode && f.payload@ == payload && n == consumed
        },
    }
}

fn read_be64(b: &Vec<u8>, at: usize) -> (r: u64)
    requires
        at + 8 <= b.len(),
    ensures
        r == be64(b@, at as int),
{
    ((b[at] as u64) << 56u64) | ((b[at + 1] as u64) << 48u64) | ((b[at + 2] as u64) << 40u64)
        | ((b[at + 3] as u64) << 32u64) | ((b[at + 4] as u64) << 24u64) | ((b[at + 5] as u64)
        << 16u64) | ((b[at + 6] as u64) << 8u64) | (b[at + 7] as u64)
}

/// Read one frame from the front of `buf` without changing it. `Ok(None)`
/// asks for more bytes; `Ok(Some((frame, n)))` gives the frame and the
/// number of bytes it took.
pub fn parse_frame_bytes(buf: &Vec<u8>, role: Role, max_size: usize) -> (r: Result<
    Option<(Frame, usize)>,
    ProtocolError,
>)
    ensures
        parse_matches(role, max_size, buf@, r),
{
    let avail = buf.len();
    if avail < 2 {
        return Ok(None);
    }
    let b0 = buf[0];
    let b1 = buf[1];
    if (b0 / 16) % 8 != 0 {
        return Err(ProtocolError::BadOpCode);
    }
    let opcode = match OpCode::from_code(b0 % 16) {
        Some(op) => op,
        None => {
            return Err(ProtocolError::InvalidOpcode(b0 % 16));
        },
    };
    let l7 = b1 % 128;
    let ext: usize = if l7 == 126 {
        2
    } else if l7 == 127 {
        8
    } else {
        0
    };
    if avail < 2 + ext {
        return Ok(None);
    }
    let len: u64 = if l7 == 126 {
        (buf[2] as u64) * 256 + (buf[3] as u64)
    } else if l7 == 127 {
        read_be64(buf, 2)
    } else {
        l7 as u64
    };
    assert(len as int == declared_len(buf@));
    if len > max_size as u64 {
        return Err(ProtocolError::Overflow);
    }
    let len = len as usize;
    if opcode.is_control() && len > 125 {
        return Err(ProtocolError::InvalidLength(len));
    }
    let hl: usize = 2 + ext;
    let masked_frame = b1 >= 128;
    let kl: usize = if masked_frame {
        4
    } else {
        0
    };
    if avail < hl + kl {
        return Ok(None);
    }
    match role {
        Role::Server => {
            if !masked_frame {
                return Err(ProtocolError::UnmaskedFrame);
            }
        },
        Role::Client => {
            if masked_frame {
                return Err(ProtocolError::MaskedFrame);
            }
        },
    }
    if avail - (hl + kl) < len {
        return Ok(None);
    }
    let start = hl + kl;
    let mut payload: Vec<u8> = Vec::with_capacity(len);
    let mut i: usize = 0;
    while i < len
        invariant
            start + len <= buf.len(),
            i <= len,
            payload@ == buf@.subrange(start as int, start + i),
        decreases len - i,
    {
        payload.push(buf[start + i]);
        i = i + 1;
    }
    if masked_frame {
        let key: [u8; 4] = [buf[hl], buf[hl + 1], buf[hl + 2], buf[hl + 3]];
        assert(key@ =~= buf@.subrange(hl as int, hl + 4));
        mask(key, &mut payload);
    }
    let frame = Frame { finished: b0 >= 128, opcode, payload };
    Ok(Some((frame, start + len)))
}

} // verus!
