//! The message-level codec: one self-contained frame per message, decoded
//! from a streaming buffer and encoded with the masking the role calls for.
use vstd::prelude::*;
use vstd::string::StringSliceAdditionalSpecFns;
use vstd::utf8::{decode_utf8, encode_utf8, valid_utf8};

use crate::error::ProtocolError;
use crate::frame::{
    be64, declared_len, ext_size, fin_bit, len7, mask_bit, op_bits, parse_frame, parse_frame_bytes,
    rsv_bits, FrameParse, Role,
};
use crate::mask::{lemma_mask_involutive, mask, masked};
use crate::proto::{close_code_valid, is_control, opcode_code, opcode_of, CloseCode, CloseReason, OpCode};

verus! {

/// Payload ceiling that a new codec starts with.
pub const DEFAULT_MAX_SIZE: usize = 65_536;

/// A message as the application sees it.
#[derive(Debug, Clone, PartialEq, Eq)]
pub enum Message {
    Text(String),
    Binary(Vec<u8>),
    Ping(Vec<u8>),
    Pong(Vec<u8>),
    Close(Option<CloseReason>),
}

/// The mathematical value of a message; a close reason is its code and
/// its text, if any.
pub enum MessageView {
    Text(Seq<char>),
    Binary(Seq<u8>),
    Ping(Seq<u8>),
    Pong(Seq<u8>),
    Close(Option<(u16, Option<Seq<char>>)>),
}

impl View for Message {
    type V = MessageView;

    open spec fn view(&self) -> MessageView {
        match self {
            Message::Text(s) => MessageView::Text(s@),
            Message::Binary(b) => MessageView::Binary(b@),
            Message::Ping(b) => MessageView::Ping(b@),
            Message::Pong(b) => MessageView::Pong(b@),
            Message::Close(None) => MessageView::Close(None),
            Message::Close(Some(r)) => MessageView::Close(
                Some(
                    (
                        r.code.code,
                        match r.description {
                            Some(d) => Some(d@),
                            None => None,
                        },
                    ),
                ),
            ),
        }
    }
}

/// What one call of the decoder gives on a buffer.
pub enum Decoded {
    NeedMore,
    Failed(ProtocolError),
    Message(MessageView, nat),
}

/// The message that an accepted, self-contained frame carries.
pub open spec fn message_of(op: OpCode, p: Seq<u8>) -> Result<MessageView, ProtocolError> {
    match op {
        OpCode::Text => if valid_utf8(p) {
            Ok(MessageView::Text(decode_utf8(p)))
        } else {
            Err(ProtocolError::BadEncoding)
        },
        OpCode::Binary => Ok(MessageView::Binary(p)),
        OpCode::Ping => Ok(MessageView::Ping(p)),
        OpCode::Pong => Ok(MessageView::Pong(p)),
        OpCode::Close => if p.len() == 0 {
            Ok(MessageView::Close(None))
        } else if p.len() == 1 {
            Err(ProtocolError::InvalidLength(1))
        } else {
            let code = (p[0] as int * 256 + p[1] as int) as u16;
            let rest = p.subrange(2, p.len() as int);
            if !close_code_valid(code) {
                Err(ProtocolError::InvalidCloseCode(code))
            } else if rest.len() == 0 {
                Ok(MessageView::Close(Some((code, None))))
            } else if valid_utf8(rest) {
                Ok(MessageView::Close(Some((code, Some(decode_utf8(rest))))))
            } else {
                Err(ProtocolError::BadEncoding)
            }
        },
        OpCode::Continue => Err(ProtocolError::NoContinuation),
    }
}

/// Decode one message from the front of `b`. Fragmented frames and
/// continuation frames are refused.
pub open spec fn decode_message(role: Role, max: usize, b: Seq<u8>) -> Decoded {
    match parse_frame(role, max, b) {
        FrameParse::Incomplete => Decoded::NeedMore,
        FrameParse::Failed(e) => Decoded::Failed(e),
        FrameParse::Parsed { fin, opcode, payload, consumed } => if !fin || opcode
            == OpCode::Continue {
            Decoded::Failed(ProtocolError::NoContinuation)
        } else {
            match message_of(opcode, payload) {
                Ok(m) => Decoded::Message(m, consumed),
                Err(e) => Decoded::Failed(e),
            }
        },
    }
}

/// The opcode a message is sent with.
pub open spec fn message_opcode(m: MessageView) -> OpCode {
    match m {
        MessageView::Text(_) => OpCode::Text,
        MessageView::Binary(_) => OpCode::Binary,
        MessageView::Ping(_) => OpCode::Ping,
        MessageView::Pong(_) => OpCode::Pong,
        MessageView::Close(_) => OpCode::Close,
    }
}

/// The payload bytes a message is sent with; a close reason is its code
/// in big-endian order, then its text.
pub open spec fn payload_bytes(m: MessageView) -> Seq<u8> {
    match m {
        MessageView::Text(s) => encode_utf8(s),
        MessageView::Binary(p) => p,
        MessageView::Ping(p) => p,
        MessageView::Pong(p) => p,
        MessageView::Close(None) => Seq::empty(),
        MessageView::Close(Some((c, d))) => seq![(c / 256) as u8, (c % 256) as u8] + match d {
            Some(t) => encode_utf8(t),
            None => Seq::empty(),
        },
    }
}

pub open spec fn be64_bytes(n: u64) -> Seq<u8> {
    seq![
        (n >> 56u64) as u8,
        (n >> 48u64) as u8,
        (n >> 40u64) as u8,
        (n >> 32u64) as u8,
        (n >> 24u64) as u8,
        (n >> 16u64) as u8,
        (n >> 8u64) as u8,
        n as u8,
    ]
}

/// The second header byte and the extended length, in the shortest form.
pub open spec fn len_header(mask_set: bool, n: nat) -> Seq<u8> {
    let mb: int = if mask_set { 128 } else { 0 };
    if n < 126 {
        seq![(mb + n) as u8]
    } else if n < 65536 {
        seq![(mb + 126) as u8, (n / 256) as u8, (n % 256) as u8]
    } else {
        seq![(mb + 127) as u8] + be64_bytes(n as u64)
    }
}

/// The bytes of one final frame that carries `m`; a client masks the
/// payload with `key`, a server sends it as it is.
pub open spec fn encode_message(role: Role, key: Seq<u8>, m: MessageView) -> Seq<u8> {
    let p = payload_bytes(m);
    let client = role == Role::Client;
    seq![(128 + opcode_code(message_opcode(m))) as u8] + len_header(client, p.len()) + if client {
        key + masked(key, p)
    } else {
        p
    }
}

/// The role at the other end of the connection.
pub open spec fn peer(role: Role) -> Role {
    match role {
        Role::Server => Role::Client,
        Role::Client => Role::Server,
    }
}

/// A message that can make the trip: its payload within `max`, a control
/// payload within 125 bytes, a close code that may stand on the wire, and
/// close text, where there is any, not empty.
pub open spec fn message_fits(m: MessageView, max: usize) -> bool {
    &&& payload_bytes(m).len() <= max
    &&& is_control(message_opcode(m)) ==> payload_bytes(m).len() <= 125
    &&& match m {
        MessageView::Close(Some((c, d))) => close_code_valid(c) && (d is Some ==> d->0.len() > 0),
        _ => true,
    }
}

proof fn lemma_be64_bytes(n: u64)
    ensures
        be64(be64_bytes(n), 0) == n,
{
    let s = be64_bytes(n);
    assert(s[0] == (n >> 56u64) as u8 && s[1] == (n >> 48u64) as u8 && s[2] == (n >> 40u64) as u8
        && s[3] == (n >> 32u64) as u8 && s[4] == (n >> 24u64) as u8 && s[5] == (n >> 16u64) as u8
        && s[6] == (n >> 8u64) as u8 && s[7] == n as u8);
    assert(((((n >> 56u64) as u8) as u64) << 56u64) | ((((n >> 48u64) as u8) as u64) << 48u64) | ((
    ((n >> 40u64) as u8) as u64) << 40u64) | ((((n >> 32u64) as u8) as u64) << 32u64) | ((((n
        >> 24u64) as u8) as u64) << 24u64) | ((((n >> 16u64) as u8) as u64) << 16u64) | ((((n
        >> 8u64) as u8) as u64) << 8u64) | ((n as u8) as u64) == n) by (bit_vector);
}

/// The header that `len_header` writes reads back as the same length.
proof fn lemma_len_header(b0: u8, mask_set: bool, n: nat, body: Seq<u8>)
    requires
        n <= u64::MAX,
    ensures
        ({
            let lh = len_header(mask_set, n);
            let b = seq![b0] + lh + body;
            &&& b.len() >= 2
            &&& b[0] == b0
            &&& mask_bit(b[1]) == mask_set
            &&& 2 + ext_size(len7(b[1])) == 1 + lh.len()
            &&& declared_len(b) == n
            &&& b.subrange(1 + lh.len() as int, b.len() as int) == body
        }),
{
    let lh = len_header(mask_set, n);
    let b = seq![b0] + lh + body;
    assert(b[0] == b0);
    assert(b[1] == lh[0]);
    assert(b.subrange(1 + lh.len() as int, b.len() as int) =~= body);
    if n < 126 {
    } else if n < 65536 {
        assert(b[2] == lh[1] && b[3] == lh[2]);
        assert((n / 256) as u8 as int * 256 + (n % 256) as u8 as int == n);
    } else {
        let e = be64_bytes(n as u64);
        assert(lh == seq![lh[0]] + e);
        assert(b[2] == e[0] && b[3] == e[1] && b[4] == e[2] && b[5] == e[3] && b[6] == e[4] && b[7]
            == e[5] && b[8] == e[6] && b[9] == e[7]);
        lemma_be64_bytes(n as u64);
    }
}

/// The payload of a message that fits decodes back to that message.
proof fn lemma_payload_message(m: MessageView, max: usize)
    requires
        message_fits(m, max),
    ensures
        message_of(message_opcode(m), payload_bytes(m)) == Ok::<MessageView, ProtocolError>(m),
{
    broadcast use vstd::utf8::group_utf8_lib;

    match m {
        MessageView::Close(Some((c, d))) => {
            let p = payload_bytes(m);
            let t = match d {
                Some(t) => encode_utf8(t),
                None => Seq::<u8>::empty(),
            };
            assert(p[0] as int * 256 + p[1] as int == c);
            assert(p.subrange(2, p.len() as int) =~= t);
            if d is Some {
                let chars = d->0;
                assert(encode_utf8(chars) == encode_scalar_first(chars) + encode_utf8(
                    chars.drop_first(),
                ));
            }
        },
        _ => {},
    }
}

spec fn encode_scalar_first(chars: Seq<char>) -> Seq<u8> {
    vstd::utf8::encode_scalar(chars[0] as u32)
}

/// What one end encodes, the other end decodes as the same message, and
/// the frame takes the whole encoding.
pub proof fn lemma_round_trip(role: Role, max: usize, key: Seq<u8>, m: MessageView)
    requires
        key.len() == 4,
        message_fits(m, max),
    ensures
        decode_message(peer(role), max, encode_message(role, key, m)) == Decoded::Message(
            m,
            encode_message(role, key, m).len(),
        ),
{
    let p = payload_bytes(m);
    let n: int = p.len() as int;
    let client = role == Role::Client;
    let op = message_opcode(m);
    let b0 = (128 + opcode_code(op)) as u8;
    let lh = len_header(client, n as nat);
    let body = if client {
        key + masked(key, p)
    } else {
        p
    };
    let b = encode_message(role, key, m);
    assert(b == seq![b0] + lh + body);
    lemma_len_header(b0, client, n as nat, body);
    assert(rsv_bits(b0) == 0 && op_bits(b0) == opcode_code(op) && fin_bit(b0));
    assert(opcode_of(op_bits(b0)) == Some(op));
    let hl: int = 1 + lh.len() as int;
    if client {
        assert(b.subrange(hl, hl + 4) =~= body.subrange(0, 4));
        assert(body.subrange(0, 4) =~= key);
        assert(b.subrange(hl + 4, hl + 4 + n) =~= body.subrange(4, 4 + n));
        assert(body.subrange(4, 4 + n) =~= masked(key, p));
        lemma_mask_involutive(key, p);
    } else {
        assert(b.subrange(hl, hl + n) =~= body);
    }
    lemma_payload_message(m, max);
}

/// A server refuses an unmasked frame once its header has passed the
/// checks that come before the masking rule.
pub proof fn lemma_server_refuses_unmasked(max: usize, b: Seq<u8>)
    requires
        header_passes(max, b),
        !mask_bit(b[1]),
    ensures
        decode_message(Role::Server, max, b) == Decoded::Failed(ProtocolError::UnmaskedFrame),
{
}

/// A client refuses a masked frame once its header and mask key are there
/// and have passed the checks that come before the masking rule.
pub proof fn lemma_client_refuses_masked(max: usize, b: Seq<u8>)
    requires
        header_passes(max, b),
        mask_bit(b[1]),
        b.len() >= 6 + ext_size(len7(b[1])),
    ensures
        decode_message(Role::Client, max, b) == Decoded::Failed(ProtocolError::MaskedFrame),
{
}

/// The header is all there and passes the checks on reserved bits,
/// opcode, payload ceiling and control-frame length.
pub open spec fn header_passes(max: usize, b: Seq<u8>) -> bool {
    &&& length_known(b)
    &&& declared_len(b) <= max
    &&& is_control(opcode_of(op_bits(b[0]))->0) ==> declared_len(b) <= 125
}

/// The two header bytes and the extended length are there, the reserved
/// bits are clear and the opcode is a legal one.
pub open spec fn length_known(b: Seq<u8>) -> bool {
    &&& b.len() >= 2
    &&& rsv_bits(b[0]) == 0
    &&& opcode_of(op_bits(b[0])) is Some
    &&& b.len() >= 2 + ext_size(len7(b[1]))
}

/// A control frame that declares more than 125 bytes is refused with its
/// length, whether or not its payload has arrived.
pub proof fn lemma_control_length(role: Role, max: usize, b: Seq<u8>)
    requires
        length_known(b),
        is_control(opcode_of(op_bits(b[0]))->0),
        125 < declared_len(b) <= max,
    ensures
        decode_message(role, max, b) == Decoded::Failed(
            ProtocolError::InvalidLength(declared_len(b) as usize),
        ),
{
}

/// A frame that declares more than the ceiling is refused before any
/// payload byte is read.
pub proof fn lemma_overflow(role: Role, max: usize, b: Seq<u8>)
    requires
        length_known(b),
        declared_len(b) > max,
    ensures
        decode_message(role, max, b) == Decoded::Failed(ProtocolError::Overflow),
{
}

/// A complete frame that is not final, or that continues another, is
/// refused.
pub proof fn lemma_no_continuation(role: Role, max: usize, b: Seq<u8>)
    requires
        parse_frame(role, max, b) is Parsed,
        !parse_frame(role, max, b)->fin || parse_frame(role, max, b)->opcode == OpCode::Continue,
    ensures
        decode_message(role, max, b) == Decoded::Failed(ProtocolError::NoContinuation),
{
}

/// A complete, final text frame whose payload is not UTF-8 is refused.
pub proof fn lemma_text_must_be_utf8(role: Role, max: usize, b: Seq<u8>)
    requires
        parse_frame(role, max, b) is Parsed,
        parse_frame(role, max, b)->fin,
        parse_frame(role, max, b)->opcode == OpCode::Text,
        !valid_utf8(parse_frame(role, max, b)->payload),
    ensures
        decode_message(role, max, b) == Decoded::Failed(ProtocolError::BadEncoding),
{
}

/// Relies on `String::from_utf8`: a string exactly when the bytes are
/// valid UTF-8, and then the string's bytes are those given.
#[verifier::external_body]
fn string_from_utf8(bytes: Vec<u8>) -> (r: Option<String>)
    ensures
        r is Some <==> valid_utf8(bytes@),
        r is Some ==> encode_utf8(r->0@) == bytes@,
{
    String::from_utf8(bytes).ok()
}

/// Relies on `rand::random`: a key from the thread-local generator.
#[verifier::external_body]
fn random_mask_key() -> (r: [u8; 4]) {
    rand::random::<[u8; 4]>()
}

fn utf8_string(bytes: Vec<u8>) -> (r: Option<String>)
    ensures
        r is Some <==> valid_utf8(bytes@),
        r is Some ==> r->0@ == decode_utf8(bytes@),
{
    proof {
        broadcast use vstd::utf8::group_utf8_lib;
    }
    match string_from_utf8(bytes) {
        Some(s) => {
            proof {
                vstd::utf8::encode_utf8_decode_utf8(s@);
            }
            Some(s)
        },
        None => None,
    }
}

fn push_all(out: &mut Vec<u8>, src: &[u8])
    ensures
        final(out)@ == old(out)@ + src@,
{
    let mut i: usize = 0;
    while i < src.len()
        invariant
            i <= src@.len(),
            out@ == old(out)@ + src@.subrange(0, i as int),
        decreases src@.len() - i,
    {
        out.push(src[i]);
        i = i + 1;
        assert(src@.subrange(0, i as int) =~= src@.subrange(0, i - 1) + seq![src@[i - 1]]);
    }
    assert(src@.subrange(0, src@.len() as int) =~= src@);
}

/// Turn the payload of an accepted frame into its message.
fn message_from_payload(op: OpCode, payload: Vec<u8>) -> (r: Result<Message, ProtocolError>)
    ensures
        match message_of(op, payload@) {
            Ok(m) => r is Ok && r->Ok_0@ == m,
            Err(e) => r == Err::<Message, ProtocolError>(e),
        },
{
    match op {
        OpCode::Text => match utf8_string(payload) {
            Some(s) => Ok(Message::Text(s)),
            None => Err(ProtocolError::BadEncoding),
        },
        OpCode::Binary => Ok(Message::Binary(payload)),
        OpCode::Ping => Ok(Message::Ping(payload)),
        OpCode::Pong => Ok(Message::Pong(payload)),
        OpCode::Close => {
            let n = payload.len();
            if n == 0 {
                return Ok(Message::Close(None));
            }
            if n == 1 {
                return Err(ProtocolError::InvalidLength(1));
            }
            let code = CloseCode { code: (payload[0] as u16) * 256 + (payload[1] as u16) };
            if !code.is_valid() {
                return Err(ProtocolError::InvalidCloseCode(code.code));
            }
            let ghost p = payload@;
            let mut payload = payload;
            let rest = payload.split_off(2);
            assert(rest@ == p.subrange(2, p.len() as int));
            if rest.len() == 0 {
                return Ok(Message::Close(Some(CloseReason { code, description: None })));
            }
            match utf8_string(rest) {
                Some(s) => Ok(Message::Close(Some(CloseReason { code, description: Some(s) }))),
                None => Err(ProtocolError::BadEncoding),
            }
        },
        OpCode::Continue => Err(ProtocolError::NoContinuation),
    }
}

/// The payload bytes of a message, and its opcode.
fn payload_of(msg: &Message) -> (r: (OpCode, Vec<u8>))
    ensures
        r.0 == message_opcode(msg@),
        r.1@ == payload_bytes(msg@),
{
    let mut out: Vec<u8> = Vec::new();
    match msg {
        Message::Text(s) => {
            push_all(&mut out, s.as_str().as_bytes());
            (OpCode::Text, out)
        },
        Message::Binary(b) => {
            push_all(&mut out, b.as_slice());
            (OpCode::Binary, out)
        },
        Message::Ping(b) => {
            push_all(&mut out, b.as_slice());
            (OpCode::Ping, out)
        },
        Message::Pong(b) => {
            push_all(&mut out, b.as_slice());
            (OpCode::Pong, out)
        },
        Message::Close(None) => {
            assert(out@ =~= payload_bytes(msg@));
            (OpCode::Close, out)
        },
        Message::Close(Some(reason)) => {
            let c = reason.code.code;
            out.push((c / 256) as u8);
            out.push((c % 256) as u8);
            match &reason.description {
                Some(d) => {
                    push_all(&mut out, d.as_str().as_bytes());
                },
                None => {},
            }
            assert(out@ =~= payload_bytes(msg@));
            (OpCode::Close, out)
        },
    }
}

fn push_len_header(out: &mut Vec<u8>, mask_set: bool, n: usize)
    ensures
        final(out)@ == old(out)@ + len_header(mask_set, n as nat),
{
    let mb: u8 = if mask_set {
        128
    } else {
        0
    };
    if n < 126 {
        out.push(mb + n as u8);
    } else if n < 65536 {
        out.push(mb + 126);
        out.push((n / 256) as u8);
        out.push((n % 256) as u8);
    } else {
        let v = n as u64;
        out.push(mb + 127);
        out.push((v >> 56u64) as u8);
        out.push((v >> 48u64) as u8);
        out.push((v >> 40u64) as u8);
        out.push((v >> 32u64) as u8);
        out.push((v >> 24u64) as u8);
        out.push((v >> 16u64) as u8);
        out.push((v >> 8u64) as u8);
        out.push(v as u8);
    }
    assert(final(out)@ =~= old(out)@ + len_header(mask_set, n as nat));
}

/// A WebSocket codec for one connection: it decodes what the peer sends
/// and encodes what this end sends. After a protocol error it stays failed
/// and decodes nothing more.
pub struct Codec {
    pub role: Role,
    pub max_size: usize,
    pub failed: Option<ProtocolError>,
}

/// What `Codec::decode` promises for a codec and a buffer before and after.
pub open spec fn decode_post(
    c0: Codec,
    c1: Codec,
    src0: Seq<u8>,
    src1: Seq<u8>,
    r: Result<Option<Message>, ProtocolError>,
) -> bool {
    match c0.failed {
        Some(e) => r == Err::<Option<Message>, ProtocolError>(e) && src1 == src0 && c1 == c0,
        None => match decode_message(c0.role, c0.max_size, src0) {
            Decoded::NeedMore => r == Ok::<Option<Message>, ProtocolError>(None) && src1 == src0
                && c1 == c0,
            Decoded::Failed(e) => r == Err::<Option<Message>, ProtocolError>(e) && src1 == src0
                && c1 == (Codec { failed: Some(e), ..c0 }),
            Decoded::Message(m, n) => r is Ok && r->Ok_0 is Some && r->Ok_0->0@ == m && src1
                == src0.subrange(n as int, src0.len() as int) && c1 == c0,
        },
    }
}

impl Codec {
    /// A codec for `role` with the default payload ceiling.
    pub fn new(role: Role) -> (r: Codec)
        ensures
            r.role == role,
            r.max_size == DEFAULT_MAX_SIZE,
            r.failed is None,
    {
        Codec { role, max_size: DEFAULT_MAX_SIZE, failed: None }
    }

    /// Set the largest payload the decoder accepts.
    pub fn max_size(self, size: usize) -> (r: Codec)
        ensures
            r == (Codec { max_size: size, ..self }),
    {
        Codec { max_size: size, ..self }
    }

    /// Decode one message from the front of `src`, removing its bytes.
    /// `Ok(None)` asks for more input and leaves `src` as it was.
    pub fn decode(&mut self, src: &mut Vec<u8>) -> (r: Result<Option<Message>, ProtocolError>)
        ensures
            decode_post(*old(self), *final(self), old(src)@, final(src)@, r),
    {
        if let Some(e) = self.failed {
            return Err(e);
        }
        match parse_frame_bytes(src, self.role, self.max_size) {
            Err(e) => {
                self.failed = Some(e);
                Err(e)
            },
            Ok(None) => Ok(None),
            Ok(Some((frame, n))) => {
                if !frame.finished || frame.opcode == OpCode::Continue {
                    self.failed = Some(ProtocolError::NoContinuation);
                    return Err(ProtocolError::NoContinuation);
                }
                match message_from_payload(frame.opcode, frame.payload) {
                    Ok(m) => {
                        let tail = src.split_off(n);
                        *src = tail;
                        Ok(Some(m))
                    },
                    Err(e) => {
                        self.failed = Some(e);
                        Err(e)
                    },
                }
            },
        }
    }

    /// Encode `msg` as one final frame, masked with `key` when this end
    /// is the client.
    pub fn encode_with_key(&self, msg: &Message, key: [u8; 4]) -> (r: Vec<u8>)
        ensures
            r@ == encode_message(self.role, key@, msg@),
    {
        let (op, mut payload) = payload_of(msg);
        let ghost p = payload@;
        let client = match self.role {
            Role::Client => true,
            Role::Server => false,
        };
        let mut out: Vec<u8> = Vec::new();
        out.push(128 + op.code());
        push_len_header(&mut out, client, payload.len());
        if client {
            out.push(key[0]);
            out.push(key[1]);
            out.push(key[2]);
            out.push(key[3]);
            mask(key, &mut payload);
        }
        let ghost head = out@;
        out.append(&mut payload);
        proof {
            if client {
                assert(key@ =~= seq![key[0], key[1], key[2], key[3]]);
            }
            assert(out@ =~= encode_message(self.role, key@, msg@));
        }
        out
    }

    /// Encode `msg` as one final frame; a client masks it with a fresh
    /// random key.
    pub fn encode(&self, msg: &Message) -> (r: Vec<u8>)
        ensures
            exists|key: Seq<u8>| key.len() == 4 && r@ == encode_message(self.role, key, msg@),
    {
        let key = match self.role {
            Role::Client => random_mask_key(),
            Role::Server => [0u8; 4],
        };
        let r = self.encode_with_key(msg, key);
        assert(key@.len() == 4);
        r
    }
}

} // verus!
