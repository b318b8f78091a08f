//! Error types shared by the codec, the transports, the client and the server.

use vstd::prelude::*;

verus! {

/// Failures of a transport link.
#[derive(Debug, PartialEq, Eq)]
pub enum TransportError {
    /// The link could not be established.
    ConnectionFailed(String),
    /// Bytes could not be handed to the link.
    SendFailed(String),
    /// Bytes could not be taken from the link, or a frame was rejected.
    ReceiveFailed(String),
    /// No complete data arrived in time.
    Timeout,
    /// The transport was closed.
    Closed,
}

/// Failures of the request/reply protocol.
#[derive(Debug, PartialEq, Eq)]
pub enum RequestError {
    /// A message of a type that is not expected at this point.
    InvalidMessageType,
    /// A reply whose sequence number does not match the request.
    UnexpectedSequence { expected: u32, actual: u32 },
    /// No service is registered under this identifier.
    InvalidServiceId(u32),
    /// The service has no method under this identifier.
    InvalidMethodId(u32),
}

/// Failures of the message codec.
#[derive(Debug, PartialEq, Eq)]
pub enum CodecError {
    /// Fewer bytes remain than the value needs.
    BufferUnderflow,
    /// The message header carries another codec version.
    InvalidVersion(u8),
    /// The message header carries an unknown message type.
    InvalidMessageType(u8),
    /// A string field does not hold valid UTF-8.
    InvalidUtf8,
    /// A length does not fit the 32-bit length prefix.
    LengthOverflow,
}

/// Any failure of an eRPC operation.
#[derive(Debug, PartialEq, Eq)]
pub enum ErpcError {
    Transport(TransportError),
    Request(RequestError),
    Codec(CodecError),
}

/// Result of an eRPC operation.
pub type ErpcResult<T> = Result<T, ErpcError>;

} // verus!
