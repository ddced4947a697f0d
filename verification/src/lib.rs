//! Verified core of an RCON client for Factorio: the little-endian packet
//! codec, the validation of incoming frames, the error type and the
//! decisions the client makes around each request.
//!
//! Factorio can return large responses (>64KB) that get fragmented across
//! multiple TCP segments. A client therefore reads the length-prefixed
//! header first ([`body_length`] validates it), then reads exactly that many
//! body bytes before parsing them ([`parse_packet_buffer`]).

pub mod codec;
pub mod error;
pub mod protocol;
pub mod session;
pub mod text;

pub use error::{RconError, Result};
pub use protocol::{
    body_length, parse_packet_buffer, Packet, MAX_PACKET_SIZE, MIN_PACKET_SIZE,
    PACKET_TYPE_AUTH, PACKET_TYPE_COMMAND,
};
pub use session::{
    auth_outcome, command_outcome, read_failure, read_failure_of, send_failure, Session,
    DEFAULT_TIMEOUT_SECS,
};
