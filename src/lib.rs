//! WebSocket protocol support: the opening handshake, and a frame codec
//! that turns bytes into messages and messages into bytes.
pub mod codec;
pub mod error;
pub mod frame;
pub mod handshake;
pub mod mask;
pub mod proto;

pub use codec::{Codec, Message, DEFAULT_MAX_SIZE};
pub use error::{ErrorResponse, HandshakeError, ProtocolError};
pub use frame::{parse_frame_bytes, Frame, Role};
pub use handshake::{
    handshake, handshake_response, hash_key, verify_handshake, HandshakeRequest,
    HandshakeResponse,
};
pub use mask::mask;
pub use proto::{CloseCode, CloseReason, OpCode};
