use chain_relay::codec::StacksHttpResponse;
use chain_relay::errors::{tenure_error_status, IoErrorKind, NetError, TenureRpcError};
use chain_relay::transport::{
    classify_http_message, deadline_exceeded, handle_net_error, send_phase_done,
    StacksHttpMessage,
};

#[test]
fn net_errors_map_to_io_kinds() {
    assert_eq!(handle_net_error(&NetError::ReadError(IoErrorKind::TimedOut)), IoErrorKind::TimedOut);
    assert_eq!(
        handle_net_error(&NetError::WriteError(IoErrorKind::ConnectionRefused)),
        IoErrorKind::ConnectionRefused
    );
    assert_eq!(handle_net_error(&NetError::RecvTimeout), IoErrorKind::WouldBlock);
    assert_eq!(handle_net_error(&NetError::SendError), IoErrorKind::Other);
    assert_eq!(handle_net_error(&NetError::DeserializeError), IoErrorKind::Other);
    assert_eq!(handle_net_error(&NetError::ProtocolError), IoErrorKind::Other);
}

#[test]
fn only_a_genuine_response_classifies_as_success() {
    let ok = classify_http_message(StacksHttpMessage::Response(StacksHttpResponse {
        status_code: 200,
        body: vec![1, 2],
    }));
    let resp = ok.expect("response");
    assert_eq!(resp.status_code, 200);
    assert_eq!(resp.body, vec![1, 2]);

    match classify_http_message(StacksHttpMessage::Error(b"/new_block".to_vec(), 500)) {
        Err(k) => assert_eq!(k, IoErrorKind::Other),
        Ok(_) => panic!("expected a failure for an error response"),
    }
    match classify_http_message(StacksHttpMessage::Request) {
        Err(k) => assert_eq!(k, IoErrorKind::Other),
        Ok(_) => panic!("expected a failure for an inbound request"),
    }
}

#[test]
fn send_phase_ends_when_flushed_and_idle() {
    assert!(send_phase_done(true, 0));
    assert!(!send_phase_done(true, 10));
    assert!(!send_phase_done(false, 0));
}

#[test]
fn deadlines_are_strict() {
    assert!(!deadline_exceeded(1000, 1000));
    assert!(deadline_exceeded(1001, 1000));
}

#[test]
fn rpc_failures_map_to_http_statuses() {
    assert_eq!(tenure_error_status(&TenureRpcError::NotFound), 404);
    assert_eq!(tenure_error_status(&TenureRpcError::ServerError), 500);
    assert_eq!(tenure_error_status(&TenureRpcError::MissingBlockId), 500);
}
