//! Error taxonomy of the delivery layer: storage lookups that find
//! nothing, transport failures, timeouts, and the HTTP-facing mappings.

use vstd::prelude::*;

verus! {

/// Failure of a chain-state read.
#[derive(Clone, Copy, Debug, PartialEq, Eq, Structural)]
pub enum ChainError {
    /// A referenced block or header does not exist.
    NoSuchBlock,
}

/// The kind of an I/O-style failure, mirroring the kinds that callers
/// branch on.
#[derive(Clone, Copy, Debug, PartialEq, Eq, Structural)]
pub enum IoErrorKind {
    /// The operation would block; also used for an elapsed deadline
    /// inside a transfer.
    WouldBlock,
    /// A connection attempt timed out.
    TimedOut,
    ConnectionRefused,
    /// Any other failure, such as a protocol violation or a non-success
    /// response.
    Other,
}

/// Failure of a request/response exchange, as reported by the protocol
/// engine.
#[derive(Clone, Copy, Debug, PartialEq, Eq, Structural)]
pub enum NetError {
    /// A read from the peer failed.
    ReadError(IoErrorKind),
    /// A write to the peer failed.
    WriteError(IoErrorKind),
    /// The engine gave up waiting for a reply.
    RecvTimeout,
    /// A message could not be handed to the engine.
    SendError,
    /// Bytes on the wire did not decode as a message.
    DeserializeError,
    /// The peer broke the protocol.
    ProtocolError,
}

/// Failure to decode an incoming HTTP request.
#[derive(Clone, Copy, Debug, PartialEq, Eq, Structural)]
pub enum HttpError {
    /// The request is malformed: wrong path shape or unexpected body.
    DecodeError,
}

/// Failure of the tenure RPC handler, mapped to an HTTP status at the
/// boundary.
#[derive(Clone, Copy, Debug, PartialEq, Eq, Structural)]
pub enum TenureRpcError {
    /// The handler was driven out of order: no block id was parsed.
    MissingBlockId,
    /// The named block does not exist; surfaced as 404.
    NotFound,
    /// Any other internal failure; surfaced as 500.
    ServerError,
}

/// The HTTP status code that a tenure RPC failure is reported with:
/// a missing block maps to 404 and anything else to 500.
pub fn tenure_error_status(e: &TenureRpcError) -> (r: u16)
    ensures
        r == (match e {
            TenureRpcError::NotFound => 404u16,
            _ => 500u16,
        }),
{
    match e {
        TenureRpcError::NotFound => 404,
        TenureRpcError::MissingBlockId => 500,
        TenureRpcError::ServerError => 500,
    }
}

} // verus!
