use chain_relay::codec::{NakamotoBlock, StacksHttpResponse};
use chain_relay::encoding::{bytes_eq, clone_bytes, hex_decode, hex_encode, u128_to_decimal};

fn block(id: u8, parent: u8, ch: u8, body: Vec<u8>) -> NakamotoBlock {
    NakamotoBlock {
        block_id: vec![id; 32],
        parent_block_id: vec![parent; 32],
        consensus_hash: vec![ch; 20],
        body,
    }
}

#[test]
fn serialize_layout_is_fields_then_length_then_body() {
    let b = block(1, 2, 3, vec![0xaa, 0xbb, 0xcc]);
    let bytes = b.consensus_serialize();
    assert_eq!(bytes.len(), 88 + 3);
    assert_eq!(&bytes[0..32], &[1u8; 32][..]);
    assert_eq!(&bytes[32..64], &[2u8; 32][..]);
    assert_eq!(&bytes[64..84], &[3u8; 20][..]);
    assert_eq!(&bytes[84..88], &[0, 0, 0, 3][..]);
    assert_eq!(&bytes[88..], &[0xaa, 0xbb, 0xcc][..]);
}

#[test]
fn deserialize_inverts_serialize() {
    let b = block(9, 8, 7, vec![5; 300]);
    let bytes = b.consensus_serialize();
    let (decoded, consumed) = NakamotoBlock::consensus_deserialize_at(&bytes, 0).unwrap();
    assert_eq!(consumed, bytes.len());
    assert_eq!(decoded.block_id, b.block_id);
    assert_eq!(decoded.parent_block_id, b.parent_block_id);
    assert_eq!(decoded.consensus_hash, b.consensus_hash);
    assert_eq!(decoded.body, b.body);
}

#[test]
fn deserialize_rejects_truncated_record() {
    let b = block(9, 8, 7, vec![5; 10]);
    let mut bytes = b.consensus_serialize();
    bytes.pop();
    assert!(NakamotoBlock::consensus_deserialize_at(&bytes, 0).is_none());
    assert!(NakamotoBlock::consensus_deserialize_at(&vec![0u8; 87], 0).is_none());
}

#[test]
fn decode_tenure_reads_concatenated_blocks_in_order() {
    let b0 = block(1, 2, 7, vec![10; 40]);
    let b1 = block(2, 3, 7, vec![11; 50]);
    let mut body = b0.consensus_serialize();
    body.extend(b1.consensus_serialize());
    let resp = StacksHttpResponse { status_code: 200, body };
    let blocks = resp.decode_nakamoto_tenure().unwrap();
    assert_eq!(blocks.len(), 2);
    assert_eq!(blocks[0].block_id, vec![1u8; 32]);
    assert_eq!(blocks[1].block_id, vec![2u8; 32]);
}

#[test]
fn decode_tenure_of_empty_body_is_empty() {
    let resp = StacksHttpResponse { status_code: 200, body: Vec::new() };
    assert_eq!(resp.decode_nakamoto_tenure().unwrap().len(), 0);
}

#[test]
fn decode_tenure_rejects_error_status_and_garbage() {
    let resp = StacksHttpResponse { status_code: 404, body: Vec::new() };
    assert!(resp.decode_nakamoto_tenure().is_err());
    let resp = StacksHttpResponse { status_code: 200, body: vec![1, 2, 3] };
    assert!(resp.decode_nakamoto_tenure().is_err());
}

#[test]
fn hex_encodes_lowercase_pairs() {
    let bytes = vec![0x00, 0xff, 0x1a, 0x2b];
    let hex = hex_encode(&bytes);
    assert_eq!(hex, b"00ff1a2b".to_vec());
    assert_eq!(hex_decode(&hex).unwrap(), bytes);
}

#[test]
fn hex_decode_rejects_odd_length_and_bad_digits() {
    assert!(hex_decode(&b"abc".to_vec()).is_none());
    assert!(hex_decode(&b"AB".to_vec()).is_none());
    assert!(hex_decode(&b"zz".to_vec()).is_none());
    assert_eq!(hex_decode(&Vec::new()).unwrap(), Vec::<u8>::new());
}

#[test]
fn decimal_rendering_is_exact() {
    assert_eq!(u128_to_decimal(0), b"0".to_vec());
    assert_eq!(u128_to_decimal(12345), b"12345".to_vec());
    assert_eq!(u128_to_decimal(1000000), b"1000000".to_vec());
    assert_eq!(
        u128_to_decimal(u128::MAX),
        b"340282366920938463463374607431768211455".to_vec()
    );
}

#[test]
fn byte_helpers() {
    assert!(bytes_eq(&vec![1, 2, 3], &vec![1, 2, 3]));
    assert!(!bytes_eq(&vec![1, 2, 3], &vec![1, 2, 4]));
    assert!(!bytes_eq(&vec![1, 2], &vec![1, 2, 3]));
    assert_eq!(clone_bytes(&vec![9, 9]), vec![9, 9]);
}
