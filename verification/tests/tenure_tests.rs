use chain_relay::chain::{ChainStore, StoredBlock};
use chain_relay::codec::{NakamotoBlock, StacksHttpResponse};
use chain_relay::errors::ChainError;
use chain_relay::tenure::{walk_tenure, NakamotoTenureStream};

fn block_with_size(id: u8, parent: u8, ch: u8, wire_size: usize) -> NakamotoBlock {
    assert!(wire_size >= 88);
    NakamotoBlock {
        block_id: vec![id; 32],
        parent_block_id: vec![parent; 32],
        consensus_hash: vec![ch; 20],
        body: vec![id; wire_size - 88],
    }
}

fn nakamoto(b: NakamotoBlock) -> StoredBlock {
    StoredBlock { nakamoto: true, block: b }
}

fn open_stream(store: ChainStore, id: u8, budget: u64) -> NakamotoTenureStream {
    let block_id = vec![id; 32];
    let (ch, parent) = {
        let rec = store.get_block_header_nakamoto(&block_id).expect("start block");
        (rec.block.consensus_hash.clone(), rec.block.parent_block_id.clone())
    };
    NakamotoTenureStream::new_with_budget(store, &block_id, ch, parent, budget).expect("stream")
}

/// Budget 1000 over block sizes [400, 400, 400]: the first response
/// carries two blocks (800 fits), the third would make 1200, so the
/// stream stops and the client resumes from the second block's id.
#[test]
fn budget_cuts_stream_after_two_of_three_blocks() {
    let store = ChainStore {
        blocks: vec![
            nakamoto(block_with_size(1, 2, 7, 400)),
            nakamoto(block_with_size(2, 3, 7, 400)),
            nakamoto(block_with_size(3, 4, 7, 400)),
        ],
    };
    let mut stream = open_stream(store, 1, 1000);
    let bytes = stream.run_to_end().expect("stream to end");
    assert_eq!(bytes.len(), 800);
    let resp = StacksHttpResponse { status_code: 200, body: bytes };
    let blocks = resp.decode_nakamoto_tenure().expect("decode");
    assert_eq!(blocks.len(), 2);
    assert_eq!(blocks[0].block_id, vec![1u8; 32]);
    assert_eq!(blocks[1].block_id, vec![2u8; 32]);
}

#[test]
fn stream_stops_at_tenure_boundary_with_budget_left() {
    let store = ChainStore {
        blocks: vec![
            nakamoto(block_with_size(1, 2, 7, 100)),
            nakamoto(block_with_size(2, 3, 7, 100)),
            // same chain, but another tenure's consensus hash
            nakamoto(block_with_size(3, 4, 8, 100)),
        ],
    };
    let mut stream = open_stream(store, 1, 1_000_000);
    let bytes = stream.run_to_end().expect("stream to end");
    let resp = StacksHttpResponse { status_code: 200, body: bytes };
    let blocks = resp.decode_nakamoto_tenure().expect("decode");
    assert_eq!(blocks.len(), 2);
    assert_eq!(blocks[1].block_id, vec![2u8; 32]);
}

#[test]
fn stream_stops_at_older_format_parent() {
    let store = ChainStore {
        blocks: vec![
            nakamoto(block_with_size(1, 2, 7, 100)),
            StoredBlock { nakamoto: false, block: block_with_size(2, 3, 7, 100) },
        ],
    };
    let mut stream = open_stream(store, 1, 1_000_000);
    let bytes = stream.run_to_end().expect("stream to end");
    let resp = StacksHttpResponse { status_code: 200, body: bytes };
    let blocks = resp.decode_nakamoto_tenure().expect("decode");
    assert_eq!(blocks.len(), 1);
}

#[test]
fn missing_parent_is_an_error() {
    let store = ChainStore { blocks: vec![nakamoto(block_with_size(1, 2, 7, 100))] };
    let mut stream = open_stream(store, 1, 1_000_000);
    assert_eq!(stream.run_to_end().unwrap_err(), ChainError::NoSuchBlock);
}

#[test]
fn next_block_reports_budget_stop_and_keeps_accounting() {
    let store = ChainStore {
        blocks: vec![
            nakamoto(block_with_size(1, 2, 7, 400)),
            nakamoto(block_with_size(2, 3, 7, 700)),
        ],
    };
    let mut stream = open_stream(store, 1, 1000);
    // drain the first block, then ask for the parent: 400 + 700 > 1000
    let mut drained = 0usize;
    loop {
        let chunk = stream.generate_next_chunk().expect("chunk");
        if chunk.is_empty() {
            break;
        }
        drained += chunk.len();
    }
    assert_eq!(drained, 400);
    assert_eq!(stream.total_sent, 400);
    assert_eq!(stream.next_block().expect("decision"), false);
}

#[test]
fn chunks_respect_the_size_hint() {
    let store = ChainStore { blocks: vec![nakamoto(block_with_size(1, 2, 7, 5000))] };
    let mut stream = open_stream(store, 1, 1_000_000);
    assert_eq!(stream.hint_chunk_size(), 4096);
    let first = stream.generate_next_chunk().expect("chunk");
    assert_eq!(first.len(), 4096);
    let second = stream.generate_next_chunk().expect("chunk");
    assert_eq!(second.len(), 5000 - 4096);
}

/// Round trip over three records: the decoded response equals the walk
/// of the parent chain done directly against storage.
#[test]
fn three_records() {
    let store = ChainStore {
        blocks: vec![
            nakamoto(block_with_size(1, 2, 7, 150)),
            nakamoto(block_with_size(2, 3, 7, 200)),
            nakamoto(block_with_size(3, 4, 7, 250)),
            // ancestor beyond the tenure boundary
            nakamoto(block_with_size(4, 5, 9, 100)),
        ],
    };
    let direct = walk_tenure(&store, &vec![1u8; 32], &vec![7u8; 20], 1_000_000).expect("walk");
    let mut stream = open_stream(store, 1, 1_000_000);
    let bytes = stream.run_to_end().expect("stream to end");
    let resp = StacksHttpResponse { status_code: 200, body: bytes };
    let decoded = resp.decode_nakamoto_tenure().expect("decode");
    assert_eq!(decoded.len(), 3);
    assert_eq!(decoded.len(), direct.len());
    for (a, b) in decoded.iter().zip(direct.iter()) {
        assert_eq!(a.block_id, b.block_id);
        assert_eq!(a.parent_block_id, b.parent_block_id);
        assert_eq!(a.consensus_hash, b.consensus_hash);
        assert_eq!(a.body, b.body);
    }
}

#[test]
fn the_first_block_streams_even_when_it_alone_exceeds_the_budget() {
    let store = ChainStore {
        blocks: vec![
            nakamoto(block_with_size(1, 2, 7, 5000)),
            StoredBlock { nakamoto: false, block: block_with_size(2, 3, 7, 100) },
        ],
    };
    let mut stream = open_stream(store, 1, 100);
    let bytes = stream.run_to_end().expect("stream to end");
    assert_eq!(bytes.len(), 5000);
}

#[test]
fn an_oversized_first_block_leaves_no_room_for_its_parent() {
    let store = ChainStore {
        blocks: vec![
            nakamoto(block_with_size(1, 2, 7, 5000)),
            nakamoto(block_with_size(2, 3, 7, 100)),
        ],
    };
    let mut stream = open_stream(store, 1, 100);
    let bytes = stream.run_to_end().expect("stream to end");
    assert_eq!(bytes.len(), 5000);
}

#[test]
fn walking_a_missing_start_block_fails() {
    let store = ChainStore { blocks: Vec::new() };
    match walk_tenure(&store, &vec![1u8; 32], &vec![7u8; 20], 1000) {
        Err(e) => assert_eq!(e, ChainError::NoSuchBlock),
        Ok(_) => panic!("expected no-such-block"),
    }
}

#[test]
fn store_wf_check_spots_bad_hash_widths() {
    let good = ChainStore { blocks: vec![nakamoto(block_with_size(1, 2, 7, 100))] };
    assert!(good.check_wf());
    let mut bad_block = block_with_size(1, 2, 7, 100);
    bad_block.block_id.pop();
    let bad = ChainStore { blocks: vec![nakamoto(bad_block)] };
    assert!(!bad.check_wf());
}

#[test]
fn stream_construction_fails_without_the_start_block() {
    let store = ChainStore { blocks: Vec::new() };
    let r = NakamotoTenureStream::new(store, &vec![1u8; 32], vec![7u8; 20], vec![2u8; 32]);
    assert!(r.is_err());
}
