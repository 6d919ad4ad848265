//! Error kinds the driver core distinguishes: server errors carrying a CQL
//! error code, transport failures, protocol (framing) violations, handshake
//! rejections, exhaustion of candidate nodes, and internal invariant breaks.

use vstd::prelude::*;

verus! {

/// Framing-level failures found while parsing or building a frame.
#[derive(Clone, Copy, Debug, PartialEq, Eq, Structural)]
pub enum CodecError {
    /// The input ended before the field being read was complete.
    UnexpectedEnd,
    /// The version byte does not denote a protocol version this driver speaks.
    InvalidVersion(u8),
    /// The opcode byte does not denote any opcode.
    InvalidOpcode(u8),
    /// A `[string]` held bytes that are not UTF-8.
    InvalidStringEncoding,
    /// The header's body length disagrees with the bytes that follow it.
    LengthMismatch,
    /// The compression flag is set but no compression scheme is configured.
    UnknownCompression,
    /// The configured decompressor rejected the payload.
    DecompressionFailed,
    /// The body, or its compressed image, is longer than the header's
    /// length field can carry.
    BodyTooLong,
    /// A `[bytes]` length prefix was negative but not a recognised marker.
    InvalidBytesLength,
    /// The body parser found a value outside the opcode's layout.
    InvalidBody,
}

/// Transport-level failures.
#[derive(Clone, Copy, Debug, PartialEq, Eq, Structural)]
pub enum TransportError {
    /// A socket read or write failed.
    Io,
    /// The TLS layer failed.
    Tls,
    /// The peer closed the connection with requests still in flight.
    UnexpectedEof,
    /// The session was dropped with requests still in flight.
    SessionClosed,
}

/// A server-reported error: CQL error code and message.
#[derive(Clone, Debug)]
pub struct ServerError {
    pub code: i32,
    pub message: String,
}

/// CQL error code for UNPREPARED: this coordinator does not know the
/// prepared-statement id and the client must re-prepare.
pub const UNPREPARED_CODE: i32 = 0x2500;

/// Error kinds surfaced by the driver core.
#[derive(Clone, Debug)]
pub enum Error {
    /// The server answered with an ERROR frame.
    Server(ServerError),
    /// The connection itself failed.
    Transport(TransportError),
    /// A malformed frame, unknown opcode, or invalid flag combination.
    Protocol(CodecError),
    /// The server rejected STARTUP or authentication.
    Handshake,
    /// Every candidate node refused the request.
    Exhausted,
    /// An internal invariant was violated.
    Internal,
}

impl Error {
    /// Whether this is the server error that demands a re-prepare.
    pub fn is_unprepared(&self) -> (r: bool)
        ensures
            r == (self matches Error::Server(e) && e.code == UNPREPARED_CODE),
    {
        match self {
            Error::Server(e) => e.code == UNPREPARED_CODE,
            _ => false,
        }
    }
}

} // verus!
