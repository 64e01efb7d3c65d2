//! Decisions of the transport driver, which performs one blocking
//! request/response exchange by manually driving a non-blocking
//! protocol engine: error mapping, loop-exit conditions, deadline
//! checks, and classification of the decoded message.  The socket work
//! around these decisions lives with the process that owns the
//! sockets.

use vstd::prelude::*;

use crate::codec::StacksHttpResponse;
use crate::errors::{IoErrorKind, NetError};

verus! {

/// One decoded message of the protocol engine, as the driver sees it:
/// a genuine response, an application-level error response carrying the
/// request path and the status, or an inbound request that should never
/// arrive on a client-only connection.
pub enum StacksHttpMessage {
    Response(StacksHttpResponse),
    Error(Vec<u8>, u16),
    Request,
}

/// Map an engine failure onto the I/O failure reported to callers:
/// read and write failures keep their kind, an engine receive timeout
/// surfaces as would-block, and everything else is a generic transport
/// failure.
pub fn handle_net_error(e: &NetError) -> (r: IoErrorKind)
    ensures
        r == (match e {
            NetError::ReadError(k) => *k,
            NetError::WriteError(k) => *k,
            NetError::RecvTimeout => IoErrorKind::WouldBlock,
            _ => IoErrorKind::Other,
        }),
{
    match e {
        NetError::ReadError(k) => *k,
        NetError::WriteError(k) => *k,
        NetError::RecvTimeout => IoErrorKind::WouldBlock,
        NetError::SendError => IoErrorKind::Other,
        NetError::DeserializeError => IoErrorKind::Other,
        NetError::ProtocolError => IoErrorKind::Other,
    }
}

/// Classify the one message an exchange decoded: only a genuine
/// response succeeds; an error response or an inbound request is a
/// failure.
pub fn classify_http_message(msg: StacksHttpMessage) -> (r: Result<StacksHttpResponse, IoErrorKind>)
    ensures
        r is Ok <==> msg is Response,
        msg is Response ==> r->Ok_0 == msg->Response_0,
        r is Err ==> r->Err_0 == IoErrorKind::Other,
{
    match msg {
        StacksHttpMessage::Response(response_data) => Ok(response_data),
        StacksHttpMessage::Error(_path, _status) => Err(IoErrorKind::Other),
        StacksHttpMessage::Request => Err(IoErrorKind::Other),
    }
}

/// Whether the send phase is finished: the request handle has been
/// flushed and the latest iteration moved nothing more onto the
/// socket.
pub fn send_phase_done(flushed: bool, num_sent: usize) -> (r: bool)
    ensures
        r == (flushed && num_sent == 0),
{
    flushed && num_sent == 0
}

/// Whether the exchange's deadline has elapsed; checked on every
/// iteration of both driver loops.
pub fn deadline_exceeded(elapsed_ms: u64, timeout_ms: u64) -> (r: bool)
    ensures
        r == (elapsed_ms > timeout_ms),
{
    elapsed_ms > timeout_ms
}

} // verus!
