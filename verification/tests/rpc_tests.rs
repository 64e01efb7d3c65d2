use chain_relay::chain::{ChainStore, StoredBlock};
use chain_relay::codec::NakamotoBlock;
use chain_relay::errors::{HttpError, TenureRpcError};
use chain_relay::rpc::{
    parse_tenure_path, HttpRequestPreamble, HttpResponsePreamble, RPCNakamotoTenureRequestHandler,
    StacksHttpRequest,
};

fn block(id: u8, parent: u8, ch: u8) -> NakamotoBlock {
    NakamotoBlock {
        block_id: vec![id; 32],
        parent_block_id: vec![parent; 32],
        consensus_hash: vec![ch; 20],
        body: vec![id; 64],
    }
}

fn good_path() -> Vec<u8> {
    let mut p = b"/v3/tenures/".to_vec();
    p.extend(std::iter::repeat(b'a').take(64));
    p
}

#[test]
fn tenure_path_wants_64_lowercase_hex_after_the_prefix() {
    let id = parse_tenure_path(&good_path()).expect("id");
    assert_eq!(id, vec![0xaa; 32]);
    assert!(parse_tenure_path(&b"/v3/tenures/abc".to_vec()).is_none());
    let mut upper = good_path();
    upper[12] = b'A';
    assert!(parse_tenure_path(&upper).is_none());
    let mut wrong_prefix = good_path();
    wrong_prefix[1] = b'w';
    assert!(parse_tenure_path(&wrong_prefix).is_none());
    let mut too_long = good_path();
    too_long.push(b'a');
    assert!(parse_tenure_path(&too_long).is_none());
}

#[test]
fn request_builder_and_path_parser_are_inverses() {
    let block_id: Vec<u8> = (0..32).collect();
    let req = StacksHttpRequest::new_get_nakamoto_tenure(String::from("peer.example"), 20443, &block_id);
    assert_eq!(req.verb, b"GET".to_vec());
    let mut expected = b"/v3/tenures/".to_vec();
    expected.extend(b"000102030405060708090a0b0c0d0e0f101112131415161718191a1b1c1d1e1f");
    assert_eq!(req.path, expected);
    assert_eq!(parse_tenure_path(&req.path).expect("parse back"), block_id);
}

#[test]
fn parse_request_rejects_a_body_and_bad_paths() {
    let mut handler = RPCNakamotoTenureRequestHandler::new();
    assert_eq!(handler.verb(), "GET");
    let r = handler.try_parse_request(&HttpRequestPreamble { content_length: 12 }, &good_path());
    assert_eq!(r.unwrap_err(), HttpError::DecodeError);
    assert!(handler.block_id.is_none());
    let r = handler.try_parse_request(
        &HttpRequestPreamble { content_length: 0 },
        &b"/v3/blocks/upload".to_vec(),
    );
    assert!(r.is_err());
    let r = handler.try_parse_request(&HttpRequestPreamble { content_length: 0 }, &good_path());
    assert!(r.is_ok());
    assert_eq!(handler.block_id.as_ref().unwrap(), &vec![0xaa; 32]);
    handler.restart();
    assert!(handler.block_id.is_none());
}

#[test]
fn handle_request_streams_the_named_tenure() {
    let store = ChainStore {
        blocks: vec![
            StoredBlock { nakamoto: true, block: block(0xaa, 0xbb, 7) },
            StoredBlock { nakamoto: true, block: block(0xbb, 0xcc, 7) },
            StoredBlock { nakamoto: true, block: block(0xcc, 0xdd, 8) },
        ],
    };
    let mut handler = RPCNakamotoTenureRequestHandler::new();
    handler
        .try_parse_request(&HttpRequestPreamble { content_length: 0 }, &good_path())
        .expect("parse");
    let mut stream = handler.try_handle_request(store).expect("stream");
    let bytes = stream.run_to_end().expect("stream");
    // two blocks of this tenure, then the boundary
    assert_eq!(bytes.len(), 2 * (88 + 64));
    // the parsed id is consumed
    assert!(handler.block_id.is_none());
}

#[test]
fn handle_request_maps_missing_blocks_to_not_found() {
    let mut handler = RPCNakamotoTenureRequestHandler::new();
    handler
        .try_parse_request(&HttpRequestPreamble { content_length: 0 }, &good_path())
        .expect("parse");
    let empty = ChainStore { blocks: Vec::new() };
    match handler.try_handle_request(empty) {
        Err(e) => assert_eq!(e, TenureRpcError::NotFound),
        Ok(_) => panic!("expected not-found"),
    }
    // driving the handler again without a parsed id is an internal error
    let empty = ChainStore { blocks: Vec::new() };
    match handler.try_handle_request(empty) {
        Err(e) => assert_eq!(e, TenureRpcError::MissingBlockId),
        Ok(_) => panic!("expected missing-block-id"),
    }
}

#[test]
fn handle_request_refuses_older_format_start_blocks() {
    let store = ChainStore {
        blocks: vec![StoredBlock { nakamoto: false, block: block(0xaa, 0xbb, 7) }],
    };
    let mut handler = RPCNakamotoTenureRequestHandler::new();
    handler
        .try_parse_request(&HttpRequestPreamble { content_length: 0 }, &good_path())
        .expect("parse");
    match handler.try_handle_request(store) {
        Err(e) => assert_eq!(e, TenureRpcError::NotFound),
        Ok(_) => panic!("expected not-found"),
    }
}

#[test]
fn parse_response_caps_the_payload() {
    let handler = RPCNakamotoTenureRequestHandler::new();
    let preamble = HttpResponsePreamble { status_code: 200 };
    let small = handler.try_parse_response(&preamble, &vec![1, 2, 3]).expect("bytes");
    assert_eq!(small, vec![1, 2, 3]);
    let too_big = vec![0u8; 16 * 1024 * 1024 + 1];
    assert!(handler.try_parse_response(&preamble, &too_big).is_err());
}
