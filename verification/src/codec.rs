//! Wire format of streamed blocks.  A tenure response body is the raw
//! concatenation of serialized block records, with no framing between
//! them: a record is self-delimiting (fixed-size header fields followed
//! by a length-prefixed body), and a client decodes by repeatedly
//! deserializing one record from the front of the remaining bytes.

use vstd::prelude::*;

use crate::errors::NetError;

verus! {

/// A block as the streaming layer sees it: identifying hashes, the link
/// to its parent, and the serialized body it carries.
pub struct NakamotoBlock {
    /// Unique 32-byte block identifier.
    pub block_id: Vec<u8>,
    /// 32-byte identifier of the direct parent block.
    pub parent_block_id: Vec<u8>,
    /// 20-byte consensus hash of the tenure this block belongs to.
    pub consensus_hash: Vec<u8>,
    /// The block's serialized payload.
    pub body: Vec<u8>,
}

/// Mathematical image of a block.
#[verifier::ext_equal]
pub struct BlockView {
    pub block_id: Seq<u8>,
    pub parent_block_id: Seq<u8>,
    pub consensus_hash: Seq<u8>,
    pub body: Seq<u8>,
}

impl View for NakamotoBlock {
    type V = BlockView;

    open spec fn view(&self) -> BlockView {
        BlockView {
            block_id: self.block_id@,
            parent_block_id: self.parent_block_id@,
            consensus_hash: self.consensus_hash@,
            body: self.body@,
        }
    }
}

/// Well-formedness of a block: hashes have their fixed widths and the
/// body length fits the 32-bit length prefix.
pub open spec fn wf_block(b: BlockView) -> bool {
    &&& b.block_id.len() == 32
    &&& b.parent_block_id.len() == 32
    &&& b.consensus_hash.len() == 20
    &&& b.body.len() <= 0xffff_ffff
}

/// Big-endian bytes of a 32-bit length.
pub open spec fn be32_of(n: u32) -> Seq<u8> {
    seq![(n >> 24) as u8, (n >> 16) as u8, (n >> 8) as u8, n as u8]
}

/// The 32-bit value denoted by four big-endian bytes.
pub open spec fn be32_val(s: Seq<u8>) -> u32
    recommends
        s.len() == 4,
{
    (((s[0] as u32) << 24) | ((s[1] as u32) << 16) | ((s[2] as u32) << 8) | (s[3] as u32)) as u32
}

pub proof fn lemma_be32_round_trip(n: u32)
    ensures
        be32_val(be32_of(n)) == n,
{
    assert((((((n >> 24) as u8) as u32) << 24) | ((((n >> 16) as u8) as u32) << 16) | ((((n >> 8)
        as u8) as u32) << 8) | ((n as u8) as u32)) == n) by (bit_vector);
}

/// Number of bytes a block record occupies on the wire.
pub open spec fn encoded_len(b: BlockView) -> int {
    88 + b.body.len() as int
}

/// The serialization of one block record: block id, parent id, consensus
/// hash, 32-bit big-endian body length, body.
pub open spec fn encode_block(b: BlockView) -> Seq<u8> {
    b.block_id + b.parent_block_id + b.consensus_hash + be32_of(b.body.len() as u32) + b.body
}

/// The first block record at the front of a byte sequence, if one is
/// complete there.
pub open spec fn decoded_first(s: Seq<u8>) -> Option<BlockView> {
    if s.len() < 88 {
        None
    } else {
        let blen = be32_val(s.subrange(84, 88)) as int;
        if s.len() < 88 + blen {
            None
        } else {
            Some(
                BlockView {
                    block_id: s.subrange(0, 32),
                    parent_block_id: s.subrange(32, 64),
                    consensus_hash: s.subrange(64, 84),
                    body: s.subrange(88, 88 + blen),
                },
            )
        }
    }
}

/// The block list denoted by a byte sequence: records decoded one after
/// another until the bytes run out.  `None` when a leftover cannot be
/// decoded as a complete record.
pub open spec fn decode_all(s: Seq<u8>) -> Option<Seq<BlockView>>
    decreases s.len(),
{
    if s.len() == 0 {
        Some(Seq::empty())
    } else {
        match decoded_first(s) {
            None => None,
            Some(b) => {
                if encoded_len(b) <= s.len() {
                    match decode_all(s.skip(encoded_len(b))) {
                        None => None,
                        Some(bs) => Some(seq![b] + bs),
                    }
                } else {
                    None
                }
            },
        }
    }
}

/// The concatenation of the serializations of a block list.
pub open spec fn concat_encodings(bs: Seq<BlockView>) -> Seq<u8>
    decreases bs.len(),
{
    if bs.len() == 0 {
        Seq::empty()
    } else {
        encode_block(bs[0]) + concat_encodings(bs.drop_first())
    }
}

/// A well-formed block's wire size is its header width plus its body.
pub proof fn lemma_encode_len(b: BlockView)
    requires
        wf_block(b),
    ensures
        encode_block(b).len() == encoded_len(b),
{
}

/// Concatenation of encodings unfolds one block at a time.
pub proof fn lemma_concat_cons(b: BlockView, bs: Seq<BlockView>)
    ensures
        concat_encodings(seq![b] + bs) == encode_block(b) + concat_encodings(bs),
{
    let s = seq![b] + bs;
    assert(s[0] == b);
    assert(s.drop_first() =~= bs);
}

/// Decoding the front of `encode_block(b) + rest` yields `b` exactly and
/// leaves `rest`.
pub proof fn lemma_decode_encode(b: BlockView, rest: Seq<u8>)
    requires
        wf_block(b),
    ensures
        decoded_first(encode_block(b) + rest) == Some(b),
        encoded_len(b) <= (encode_block(b) + rest).len(),
        (encode_block(b) + rest).skip(encoded_len(b)) == rest,
{
    let s = encode_block(b) + rest;
    lemma_be32_round_trip(b.body.len() as u32);
    assert(s.subrange(84, 88) =~= be32_of(b.body.len() as u32));
    let blen = be32_val(s.subrange(84, 88)) as int;
    assert(blen == b.body.len());
    assert(s.subrange(0, 32) =~= b.block_id);
    assert(s.subrange(32, 64) =~= b.parent_block_id);
    assert(s.subrange(64, 84) =~= b.consensus_hash);
    assert(s.subrange(88, 88 + blen) =~= b.body);
    assert(decoded_first(s)->Some_0 =~= b);
    assert(s.skip(encoded_len(b)) =~= rest);
}

/// Decoding inverts concatenation: the bytes of a well-formed block list
/// decode back to that same list.
pub proof fn lemma_decode_concat(bs: Seq<BlockView>)
    requires
        forall|i: int| 0 <= i < bs.len() ==> wf_block(#[trigger] bs[i]),
    ensures
        decode_all(concat_encodings(bs)) == Some(bs),
    decreases bs.len(),
{
    if bs.len() == 0 {
        assert(decode_all(concat_encodings(bs))->Some_0 =~= bs);
    } else {
        let rest = concat_encodings(bs.drop_first());
        lemma_decode_encode(bs[0], rest);
        let s = concat_encodings(bs);
        assert(s == encode_block(bs[0]) + rest);
        assert(s.len() > 0);
        lemma_decode_concat(bs.drop_first());
        assert(seq![bs[0]] + bs.drop_first() =~= bs);
    }
}

/// Append the contents of one byte vector to another.
pub fn append_bytes(dst: &mut Vec<u8>, src: &Vec<u8>)
    ensures
        final(dst)@ == old(dst)@ + src@,
{
    let mut i: usize = 0;
    while i < src.len()
        invariant
            i <= src@.len(),
            dst@ =~= old(dst)@ + src@.take(i as int),
        decreases src.len() - i,
    {
        dst.push(src[i]);
        i = i + 1;
    }
    proof {
        assert(src@.take(src@.len() as int) =~= src@);
    }
}

impl NakamotoBlock {
    /// Whether the block's fields have their required widths.
    pub fn check_wf(&self) -> (r: bool)
        ensures
            r == wf_block(self@),
    {
        self.block_id.len() == 32 && self.parent_block_id.len() == 32 && self.consensus_hash.len()
            == 20 && self.body.len() <= 0xffff_ffff
    }

    /// Serialize this block record for the wire.
    pub fn consensus_serialize(&self) -> (r: Vec<u8>)
        requires
            wf_block(self@),
        ensures
            r@ == encode_block(self@),
    {
        let mut r: Vec<u8> = Vec::new();
        append_bytes(&mut r, &self.block_id);
        append_bytes(&mut r, &self.parent_block_id);
        append_bytes(&mut r, &self.consensus_hash);
        let n: u32 = self.body.len() as u32;
        r.push((n >> 24) as u8);
        r.push((n >> 16) as u8);
        r.push((n >> 8) as u8);
        r.push(n as u8);
        append_bytes(&mut r, &self.body);
        proof {
            assert(r@ =~= encode_block(self@));
        }
        r
    }

    /// Deserialize one block record starting at `start`, returning the
    /// record and the number of bytes it consumed.
    pub fn consensus_deserialize_at(bytes: &Vec<u8>, start: usize) -> (r: Option<
        (NakamotoBlock, usize),
    >)
        requires
            start <= bytes@.len(),
        ensures
            r is Some <==> decoded_first(bytes@.skip(start as int)) is Some,
            r is Some ==> {
                &&& r->Some_0.0@ == decoded_first(bytes@.skip(start as int))->Some_0
                &&& r->Some_0.1 == encoded_len(r->Some_0.0@)
                &&& start + r->Some_0.1 <= bytes@.len()
            },
    {
        let ghost tail = bytes@.skip(start as int);
        if bytes.len() - start < 88 {
            return None;
        }
        let b0: u8 = bytes[start + 84];
        let b1: u8 = bytes[start + 85];
        let b2: u8 = bytes[start + 86];
        let b3: u8 = bytes[start + 87];
        let blen: u32 = ((b0 as u32) << 24) | ((b1 as u32) << 16) | ((b2 as u32) << 8) | (b3
            as u32);
        proof {
            assert(tail.subrange(84, 88) =~= seq![b0, b1, b2, b3]);
            assert(be32_val(tail.subrange(84, 88)) == blen);
        }
        let rem: usize = bytes.len() - start - 88;
        if (rem as u64) < (blen as u64) {
            proof {
                assert(tail.len() < 88 + be32_val(tail.subrange(84, 88)));
            }
            return None;
        }
        let blen_us: usize = blen as usize;
        let mut block_id: Vec<u8> = Vec::new();
        let mut parent_block_id: Vec<u8> = Vec::new();
        let mut consensus_hash: Vec<u8> = Vec::new();
        let mut body: Vec<u8> = Vec::new();
        copy_range(bytes, start, 32, &mut block_id);
        copy_range(bytes, start + 32, 32, &mut parent_block_id);
        copy_range(bytes, start + 64, 20, &mut consensus_hash);
        copy_range(bytes, start + 88, blen_us, &mut body);
        let block = NakamotoBlock { block_id, parent_block_id, consensus_hash, body };
        proof {
            assert(block@.block_id =~= tail.subrange(0, 32));
            assert(block@.parent_block_id =~= tail.subrange(32, 64));
            assert(block@.consensus_hash =~= tail.subrange(64, 84));
            assert(block@.body =~= tail.subrange(88, 88 + blen));
            assert(block@ =~= decoded_first(tail)->Some_0);
        }
        Some((block, 88 + blen_us))
    }
}

/// Copy `count` bytes of `src` starting at `from` into `dst`, replacing
/// its contents.
pub(crate) fn copy_range(src: &Vec<u8>, from: usize, count: usize, dst: &mut Vec<u8>)
    requires
        from + count <= src@.len(),
    ensures
        final(dst)@ == src@.subrange(from as int, from + count),
{
    dst.clear();
    let n: usize = src.len();
    let mut i: usize = 0;
    while i < count
        invariant
            i <= count,
            from + count <= n,
            n == src@.len(),
            dst@ =~= src@.subrange(from as int, from + i),
        decreases count - i,
    {
        dst.push(src[from + i]);
        i = i + 1;
        proof {
            assert(dst@ =~= src@.subrange(from as int, from + i));
        }
    }
}

/// The mathematical images of a vector of blocks.
pub open spec fn views_of_blocks(v: Seq<NakamotoBlock>) -> Seq<BlockView> {
    v.map_values(|b: NakamotoBlock| b@)
}

/// A decoded HTTP response as the tenure client sees it: the status code
/// and the raw payload bytes.
pub struct StacksHttpResponse {
    pub status_code: u16,
    pub body: Vec<u8>,
}

impl StacksHttpResponse {
    /// Decode a tenure response: the payload is a concatenation of block
    /// records with no framing, deserialized one after another until the
    /// buffer is exhausted, in the order they were streamed
    /// (child first, ancestors after).  Fails when the response is not a
    /// success or when the payload is not such a concatenation.
    pub fn decode_nakamoto_tenure(self) -> (r: Result<Vec<NakamotoBlock>, NetError>)
        ensures
            r is Ok <==> (self.status_code == 200 && decode_all(self.body@) is Some),
            r is Ok ==> views_of_blocks(r->Ok_0@) == decode_all(self.body@)->Some_0,
    {
        if self.status_code != 200 {
            return Err(NetError::ProtocolError);
        }
        let bytes = self.body;
        let mut blocks: Vec<NakamotoBlock> = Vec::new();
        let mut offset: usize = 0;
        proof {
            assert(bytes@.skip(0) =~= bytes@);
            if decode_all(bytes@) is Some {
                assert(views_of_blocks(blocks@) + decode_all(bytes@)->Some_0 =~= decode_all(
                    bytes@,
                )->Some_0);
            }
        }
        loop
            invariant
                offset <= bytes@.len(),
                bytes@ == self.body@,
                decode_all(bytes@) == (match decode_all(bytes@.skip(offset as int)) {
                    None => None::<Seq<BlockView>>,
                    Some(s) => Some(views_of_blocks(blocks@) + s),
                }),
            ensures
                offset == bytes@.len(),
                decode_all(bytes@) == Some(views_of_blocks(blocks@)),
            decreases bytes@.len() - offset,
        {
            if offset >= bytes.len() {
                proof {
                    assert(bytes@.skip(offset as int) =~= Seq::<u8>::empty());
                    assert(views_of_blocks(blocks@) + Seq::<BlockView>::empty() =~= views_of_blocks(
                        blocks@,
                    ));
                }
                break;
            }
            let ghost tail = bytes@.skip(offset as int);
            match NakamotoBlock::consensus_deserialize_at(&bytes, offset) {
                None => {
                    proof {
                        assert(tail.len() > 0);
                        assert(decode_all(tail) is None);
                    }
                    return Err(NetError::DeserializeError);
                },
                Some((block, consumed)) => {
                    proof {
                        let b = decoded_first(tail)->Some_0;
                        assert(tail.len() > 0);
                        assert(tail.skip(encoded_len(b)) =~= bytes@.skip(
                            offset + consumed,
                        ));
                    }
                    blocks.push(block);
                    offset = offset + consumed;
                    proof {
                        let s_opt = decode_all(bytes@.skip(offset as int));
                        if s_opt is Some {
                            assert(views_of_blocks(blocks@) =~= views_of_blocks(
                                blocks@.drop_last(),
                            ) + seq![blocks@.last()@]);
                            assert(views_of_blocks(blocks@.drop_last()) + (seq![
                                blocks@.last()@,
                            ] + s_opt->Some_0) =~= views_of_blocks(blocks@) + s_opt->Some_0);
                        }
                    }
                },
            }
        }
        Ok(blocks)
    }
}

} // verus!
