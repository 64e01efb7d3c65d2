//! The tenure stream generator: a pull-based, resumable generator that
//! serializes a chain of blocks backward from a start block, stopping at
//! the tenure boundary, at the older block format, or when the next
//! block would push the response past its byte budget.

use vstd::prelude::*;

use crate::chain::{store_lookup, wf_store, ChainStore, StoredBlock, StoredBlockView};
use crate::codec::{concat_encodings, encode_block, encoded_len, wf_block, BlockView, NakamotoBlock};
use crate::encoding::{bytes_eq, clone_bytes};
use crate::errors::ChainError;

verus! {

/// Cap on the total bytes of one streamed response.
pub const MAX_MESSAGE_LEN: u64 = 16 * 1024 * 1024;

/// Preferred chunk granularity of the generator.
pub const CHUNK_SIZE_HINT: usize = 4096;

/// A byte budget low enough that the running total, advanced by at most
/// one block record at a time, cannot overflow its 64-bit counter.
pub open spec fn budget_ok(max: u64) -> bool {
    max <= 0xffff_fff0_0000_0000u64
}

/// Saturating 64-bit addition of a non-negative amount.
pub open spec fn sat_add_u64(a: u64, b: int) -> u64
    recommends
        b >= 0,
{
    if a + b > u64::MAX {
        u64::MAX
    } else {
        (a + b) as u64
    }
}

/// Mathematical image of a tenure stream: the storage it reads, the
/// block being serialized, how far into that block it is, the id its
/// next advance will look up, the tenure's consensus hash, and the byte
/// accounting.
#[verifier::ext_equal]
pub struct TenureStreamView {
    pub store: Seq<StoredBlockView>,
    pub current: BlockView,
    pub offset: int,
    pub parent_id: Seq<u8>,
    pub consensus_hash: Seq<u8>,
    pub total_sent: u64,
    pub max_len: u64,
}

/// Well-formedness of a stream state.
pub open spec fn wf_stream(s: TenureStreamView) -> bool {
    &&& wf_store(s.store)
    &&& wf_block(s.current)
    &&& 0 <= s.offset <= encoded_len(s.current)
    &&& s.consensus_hash.len() == 20
    &&& budget_ok(s.max_len)
}

/// The streaming state machine over a chain of blocks.
pub struct NakamotoTenureStream {
    /// The stream's own connection to block storage.
    pub headers_conn: ChainStore,
    /// Block currently being serialized.
    pub current_block: NakamotoBlock,
    /// Wire bytes of the current block.
    pub block_buf: Vec<u8>,
    /// How many bytes of the current block were already emitted.
    pub offset: usize,
    /// Id of the block the next advance will load.
    pub parent_block_id: Vec<u8>,
    /// Consensus hash of the tenure being streamed.
    pub consensus_hash: Vec<u8>,
    /// Total bytes committed across completed blocks of this response.
    pub total_sent: u64,
    /// Byte budget of the whole response.
    pub max_len: u64,
}

impl View for NakamotoTenureStream {
    type V = TenureStreamView;

    open spec fn view(&self) -> TenureStreamView {
        TenureStreamView {
            store: self.headers_conn@,
            current: self.current_block@,
            offset: self.offset as int,
            parent_id: self.parent_block_id@,
            consensus_hash: self.consensus_hash@,
            total_sent: self.total_sent,
            max_len: self.max_len,
        }
    }
}

/// What one advance does: look the parent up; fail when it is missing;
/// stop (leaving the state otherwise unchanged) when the parent is of
/// the older format or of another tenure; account the bytes of the
/// finished block and stop when the parent would not fit the budget;
/// else make the parent the current block.
pub open spec fn next_block_spec(s: TenureStreamView) -> (TenureStreamView, Result<
    bool,
    ChainError,
>) {
    match store_lookup(s.store, s.parent_id) {
        None => (s, Err(ChainError::NoSuchBlock)),
        Some(rec) => {
            if !rec.nakamoto {
                (s, Ok(false))
            } else if rec.block.consensus_hash != s.consensus_hash {
                (s, Ok(false))
            } else {
                let new_total = sat_add_u64(s.total_sent, s.offset);
                if sat_add_u64(new_total, encoded_len(rec.block)) > s.max_len {
                    (TenureStreamView { total_sent: new_total, ..s }, Ok(false))
                } else {
                    (
                        TenureStreamView {
                            current: rec.block,
                            offset: 0,
                            parent_id: rec.block.parent_block_id,
                            total_sent: new_total,
                            ..s
                        },
                        Ok(true),
                    )
                }
            }
        },
    }
}

/// What one pull does: drain up to a chunk of the current block; once it
/// is exhausted, advance, and either emit the first chunk of the new
/// block or signal the end of the stream with an empty chunk.
pub open spec fn chunk_spec(s: TenureStreamView) -> (TenureStreamView, Result<Seq<u8>, ChainError>) {
    let buf = encode_block(s.current);
    if s.offset < buf.len() {
        let take = if buf.len() - s.offset < 4096 {
            buf.len() - s.offset
        } else {
            4096int
        };
        (
            TenureStreamView { offset: s.offset + take, ..s },
            Ok(buf.subrange(s.offset, s.offset + take)),
        )
    } else {
        let (s2, r) = next_block_spec(s);
        match r {
            Err(e) => (s2, Err(e)),
            Ok(advanced) => {
                if !advanced {
                    (s2, Ok(Seq::empty()))
                } else {
                    let buf2 = encode_block(s2.current);
                    let take2 = if buf2.len() < 4096 {
                        buf2.len() as int
                    } else {
                        4096int
                    };
                    (TenureStreamView { offset: take2, ..s2 }, Ok(buf2.subrange(0, take2)))
                }
            },
        }
    }
}

impl NakamotoTenureStream {
    /// The state invariant the stream maintains: a well-formed view and
    /// a buffer that holds exactly the current block's wire bytes.
    pub open spec fn inv(&self) -> bool {
        &&& wf_stream(self@)
        &&& self.block_buf@ == encode_block(self.current_block@)
    }

    /// Open a stream over its own storage connection, starting from the
    /// named block.  Fails when that block is not stored in the newer
    /// format.
    pub fn new(
        store: ChainStore,
        block_id: &Vec<u8>,
        consensus_hash: Vec<u8>,
        parent_block_id: Vec<u8>,
    ) -> (r: Result<NakamotoTenureStream, ChainError>)
        requires
            wf_store(store@),
            consensus_hash@.len() == 20,
        ensures
            r is Ok <==> (store_lookup(store@, block_id@) is Some && store_lookup(
                store@,
                block_id@,
            )->Some_0.nakamoto),
            r is Ok ==> r->Ok_0.inv() && r->Ok_0@ == (TenureStreamView {
                store: store@,
                current: store_lookup(store@, block_id@)->Some_0.block,
                offset: 0,
                parent_id: parent_block_id@,
                consensus_hash: consensus_hash@,
                total_sent: 0,
                max_len: MAX_MESSAGE_LEN,
            }),
            r is Err ==> r->Err_0 == ChainError::NoSuchBlock,
    {
        Self::new_with_budget(store, block_id, consensus_hash, parent_block_id, MAX_MESSAGE_LEN)
    }

    /// As `new`, with an explicit byte budget.
    pub fn new_with_budget(
        store: ChainStore,
        block_id: &Vec<u8>,
        consensus_hash: Vec<u8>,
        parent_block_id: Vec<u8>,
        max_len: u64,
    ) -> (r: Result<NakamotoTenureStream, ChainError>)
        requires
            wf_store(store@),
            consensus_hash@.len() == 20,
            budget_ok(max_len),
        ensures
            r is Ok <==> (store_lookup(store@, block_id@) is Some && store_lookup(
                store@,
                block_id@,
            )->Some_0.nakamoto),
            r is Ok ==> r->Ok_0.inv() && r->Ok_0@ == (TenureStreamView {
                store: store@,
                current: store_lookup(store@, block_id@)->Some_0.block,
                offset: 0,
                parent_id: parent_block_id@,
                consensus_hash: consensus_hash@,
                total_sent: 0,
                max_len: max_len,
            }),
            r is Err ==> r->Err_0 == ChainError::NoSuchBlock,
    {
        let start = match store.get_block_header_nakamoto(block_id) {
            None => {
                return Err(ChainError::NoSuchBlock);
            },
            Some(rec) => {
                if !rec.nakamoto {
                    return Err(ChainError::NoSuchBlock);
                }
                crate::chain::clone_stored(rec)
            },
        };
        proof {
            crate::chain::lemma_store_lookup_wf(store@, block_id@);
        }
        let block_buf = start.block.consensus_serialize();
        let stream = NakamotoTenureStream {
            headers_conn: store,
            current_block: start.block,
            block_buf,
            offset: 0,
            parent_block_id,
            consensus_hash,
            total_sent: 0,
            max_len,
        };
        proof {
            assert(stream@ =~= (TenureStreamView {
                store: stream.headers_conn@,
                current: stream.current_block@,
                offset: 0,
                parent_id: stream.parent_block_id@,
                consensus_hash: stream.consensus_hash@,
                total_sent: 0,
                max_len: max_len,
            }));
        }
        Ok(stream)
    }

    /// The generator's preferred read granularity; callers may see
    /// chunks of any size regardless.
    pub fn hint_chunk_size(&self) -> (r: usize)
        ensures
            r == 4096,
    {
        CHUNK_SIZE_HINT
    }

    /// Start streaming the next block: the parent of the one streamed
    /// last.  `Ok(true)` means the parent fits and is now current;
    /// `Ok(false)` means the stream is done (boundary, older format, or
    /// budget), and the client must re-request from the last block it
    /// received; `Err` means the parent's header or size could not be
    /// read.
    pub fn next_block(&mut self) -> (r: Result<bool, ChainError>)
        requires
            old(self).inv(),
        ensures
            final(self).inv(),
            final(self)@ == next_block_spec(old(self)@).0,
            r == next_block_spec(old(self)@).1,
    {
        let parent = match self.headers_conn.get_block_header_nakamoto(&self.parent_block_id) {
            None => {
                return Err(ChainError::NoSuchBlock);
            },
            Some(rec) => crate::chain::clone_stored(rec),
        };
        // stop sending if the parent is of the older block format
        if !parent.nakamoto {
            return Ok(false);
        }
        // stop sending if the parent is in a different tenure
        if !bytes_eq(&parent.block.consensus_hash, &self.consensus_hash) {
            return Ok(false);
        }
        let parent_size = match self.headers_conn.get_nakamoto_block_size(&self.parent_block_id) {
            None => {
                return Err(ChainError::NoSuchBlock);
            },
            Some(s) => s,
        };
        let new_total: u64 = if (self.offset as u64) > u64::MAX - self.total_sent {
            u64::MAX
        } else {
            self.total_sent + (self.offset as u64)
        };
        let would_send: u64 = if parent_size > u64::MAX - new_total {
            u64::MAX
        } else {
            new_total + parent_size
        };
        if would_send > self.max_len {
            // out of space to send this
            self.total_sent = new_total;
            proof {
                assert(self@ =~= next_block_spec(old(self)@).0);
            }
            return Ok(false);
        }
        proof {
            crate::chain::lemma_store_lookup_wf(self@.store, self@.parent_id);
        }
        let new_buf = parent.block.consensus_serialize();
        self.parent_block_id = clone_bytes(&parent.block.parent_block_id);
        self.current_block = parent.block;
        self.block_buf = new_buf;
        self.offset = 0;
        self.total_sent = new_total;
        proof {
            assert(self@ =~= next_block_spec(old(self)@).0);
        }
        Ok(true)
    }

    /// Pull the next chunk of the response.  A non-empty chunk is block
    /// data; an empty chunk with no error signals the end of the stream.
    pub fn generate_next_chunk(&mut self) -> (r: Result<Vec<u8>, ChainError>)
        requires
            old(self).inv(),
        ensures
            final(self).inv(),
            final(self)@ == chunk_spec(old(self)@).0,
            r is Ok <==> chunk_spec(old(self)@).1 is Ok,
            r is Ok ==> r->Ok_0@ == chunk_spec(old(self)@).1->Ok_0,
            r is Err ==> r->Err_0 == chunk_spec(old(self)@).1->Err_0,
    {
        if self.offset < self.block_buf.len() {
            // have block data to send
            let take = if self.block_buf.len() - self.offset < CHUNK_SIZE_HINT {
                self.block_buf.len() - self.offset
            } else {
                CHUNK_SIZE_HINT
            };
            let mut chunk: Vec<u8> = Vec::new();
            crate::codec::copy_range(&self.block_buf, self.offset, take, &mut chunk);
            self.offset = self.offset + take;
            proof {
                assert(self@ =~= chunk_spec(old(self)@).0);
            }
            return Ok(chunk);
        }
        // load up the next block
        let advanced = match self.next_block() {
            Err(e) => {
                return Err(e);
            },
            Ok(b) => b,
        };
        if !advanced {
            return Ok(Vec::new());
        }
        let take = if self.block_buf.len() < CHUNK_SIZE_HINT {
            self.block_buf.len()
        } else {
            CHUNK_SIZE_HINT
        };
        let mut chunk: Vec<u8> = Vec::new();
        crate::codec::copy_range(&self.block_buf, 0, take, &mut chunk);
        self.offset = take;
        proof {
            assert(self@ =~= chunk_spec(old(self)@).0);
        }
        Ok(chunk)
    }
}

/// The ancestors a stream serves after its current block: follow parent
/// ids while each parent is stored in the newer format, shares the
/// tenure's consensus hash, and still fits the byte budget on top of
/// `total`.  The flag is false exactly when the walk ended on a missing
/// parent, which the stream reports as an error.
pub open spec fn walk_rest(
    store: Seq<StoredBlockView>,
    parent_id: Seq<u8>,
    ch: Seq<u8>,
    total: int,
    max: int,
) -> (Seq<BlockView>, bool)
    decreases max - total,
{
    match store_lookup(store, parent_id) {
        None => (Seq::empty(), false),
        Some(rec) => {
            if !rec.nakamoto {
                (Seq::empty(), true)
            } else if rec.block.consensus_hash != ch {
                (Seq::empty(), true)
            } else if total + encoded_len(rec.block) > max {
                (Seq::empty(), true)
            } else {
                let r = walk_rest(
                    store,
                    rec.block.parent_block_id,
                    ch,
                    total + encoded_len(rec.block),
                    max,
                );
                (seq![rec.block] + r.0, r.1)
            }
        },
    }
}

/// All blocks a completed stream serves: the start block, then its
/// in-tenure ancestors while the budget lasts.
pub open spec fn tenure_walk(
    store: Seq<StoredBlockView>,
    start: BlockView,
    parent_id: Seq<u8>,
    ch: Seq<u8>,
    max: int,
) -> (Seq<BlockView>, bool) {
    let r = walk_rest(store, parent_id, ch, encoded_len(start), max);
    (seq![start] + r.0, r.1)
}

/// Whether a block is stored, in the newer format.
pub open spec fn block_in_store(store: Seq<StoredBlockView>, b: BlockView) -> bool {
    exists|j: int| 0 <= j < store.len() && (#[trigger] store[j]).block == b && store[j].nakamoto
}

/// Every walked block shares the tenure's consensus hash, is a stored
/// newer-format block, and fit the budget when it was included.
pub proof fn lemma_walk_rest_blocks(
    store: Seq<StoredBlockView>,
    parent_id: Seq<u8>,
    ch: Seq<u8>,
    total: int,
    max: int,
)
    requires
        wf_store(store),
    ensures
        ({
            let (bs, ok) = walk_rest(store, parent_id, ch, total, max);
            &&& forall|i: int| 0 <= i < bs.len() ==> (#[trigger] bs[i]).consensus_hash == ch
            &&& forall|i: int| 0 <= i < bs.len() ==> block_in_store(store, #[trigger] bs[i])
            &&& forall|j: int|
                1 <= j <= bs.len() ==> total + concat_encodings(#[trigger] bs.take(j)).len() <= max
        }),
    decreases max - total,
{
    let (bs, ok) = walk_rest(store, parent_id, ch, total, max);
    match store_lookup(store, parent_id) {
        None => {},
        Some(rec) => {
            if !rec.nakamoto || rec.block.consensus_hash != ch || total + encoded_len(rec.block)
                > max {
            } else {
                let size = encoded_len(rec.block);
                let r = walk_rest(store, rec.block.parent_block_id, ch, total + size, max);
                lemma_walk_rest_blocks(store, rec.block.parent_block_id, ch, total + size, max);
                crate::chain::lemma_store_lookup_member(store, parent_id);
                crate::chain::lemma_store_lookup_wf(store, parent_id);
                crate::codec::lemma_encode_len(rec.block);
                assert(bs == seq![rec.block] + r.0);
                assert forall|i: int| 0 <= i < bs.len() implies (#[trigger] bs[i]).consensus_hash
                    == ch && block_in_store(store, bs[i]) by {
                    if i > 0 {
                        assert(bs[i] == r.0[i - 1]);
                    }
                }
                assert forall|j: int|
                    1 <= j <= bs.len() implies total + concat_encodings(#[trigger] bs.take(
                    j,
                )).len() <= max by {
                    assert(bs.take(j) =~= seq![rec.block] + r.0.take(j - 1));
                    crate::codec::lemma_concat_cons(rec.block, r.0.take(j - 1));
                    if j == 1 {
                        assert(concat_encodings(r.0.take(0)) =~= Seq::<u8>::empty());
                    } else {
                        assert(total + size + concat_encodings(r.0.take(j - 1)).len() <= max);
                    }
                }
            }
        },
    }
}

/// The id the walk stopped at: the parent of the last walked block, or
/// the starting parent id when nothing was walked.
pub open spec fn walk_next_parent(bs: Seq<BlockView>, parent_id: Seq<u8>) -> Seq<u8> {
    if bs.len() == 0 {
        parent_id
    } else {
        bs.last().parent_block_id
    }
}

/// Why the walk stopped: either the next parent is missing (and the
/// flag is false), or it is stored but of the older format, of another
/// tenure, or too large for what the budget has left.
pub proof fn lemma_walk_rest_stop(
    store: Seq<StoredBlockView>,
    parent_id: Seq<u8>,
    ch: Seq<u8>,
    total: int,
    max: int,
)
    requires
        wf_store(store),
    ensures
        ({
            let (bs, ok) = walk_rest(store, parent_id, ch, total, max);
            let np = walk_next_parent(bs, parent_id);
            &&& (!ok <==> store_lookup(store, np) is None)
            &&& (ok ==> {
                let rec = store_lookup(store, np)->Some_0;
                ||| !rec.nakamoto
                ||| rec.block.consensus_hash != ch
                ||| total + concat_encodings(bs).len() + encoded_len(rec.block) > max
            })
        }),
    decreases max - total,
{
    let (bs, ok) = walk_rest(store, parent_id, ch, total, max);
    match store_lookup(store, parent_id) {
        None => {},
        Some(rec) => {
            if !rec.nakamoto || rec.block.consensus_hash != ch || total + encoded_len(rec.block)
                > max {
                assert(concat_encodings(bs) =~= Seq::<u8>::empty());
            } else {
                let size = encoded_len(rec.block);
                let r = walk_rest(store, rec.block.parent_block_id, ch, total + size, max);
                lemma_walk_rest_stop(store, rec.block.parent_block_id, ch, total + size, max);
                assert(bs == seq![rec.block] + r.0);
                if r.0.len() == 0 {
                    assert(bs.last() == rec.block);
                    assert(walk_next_parent(bs, parent_id) == rec.block.parent_block_id);
                } else {
                    assert(bs.last() == r.0.last());
                }
                crate::codec::lemma_concat_cons(rec.block, r.0);
                crate::chain::lemma_store_lookup_wf(store, parent_id);
                crate::codec::lemma_encode_len(rec.block);
                assert(concat_encodings(bs).len() == size + concat_encodings(r.0).len());
            }
        },
    }
}

impl NakamotoTenureStream {
    /// Drain the stream to its end, concatenating every emitted chunk:
    /// the response body of one tenure request.  The bytes are exactly
    /// the serializations of the walked blocks, in walk order.
    pub fn run_to_end(&mut self) -> (r: Result<Vec<u8>, ChainError>)
        requires
            old(self).inv(),
            old(self)@.offset == 0,
            old(self)@.total_sent == 0,
        ensures
            ({
                let (bs, ok) = tenure_walk(
                    old(self)@.store,
                    old(self)@.current,
                    old(self)@.parent_id,
                    old(self)@.consensus_hash,
                    old(self)@.max_len as int,
                );
                &&& (r is Ok <==> ok)
                &&& (r is Ok ==> r->Ok_0@ == concat_encodings(bs))
                &&& (r is Err ==> r->Err_0 == ChainError::NoSuchBlock)
            }),
    {
        let ghost full = tenure_walk(
            old(self)@.store,
            old(self)@.current,
            old(self)@.parent_id,
            old(self)@.consensus_hash,
            old(self)@.max_len as int,
        );
        let mut acc: Vec<u8> = Vec::new();
        proof {
            crate::codec::lemma_concat_cons(
                old(self)@.current,
                walk_rest(
                    old(self)@.store,
                    old(self)@.parent_id,
                    old(self)@.consensus_hash,
                    encoded_len(old(self)@.current),
                    old(self)@.max_len as int,
                ).0,
            );
            assert(encode_block(self@.current).skip(0) =~= encode_block(self@.current));
            assert(acc@ + encode_block(self@.current).skip(self@.offset) + concat_encodings(
                walk_rest(
                    self@.store,
                    self@.parent_id,
                    self@.consensus_hash,
                    self@.total_sent + encoded_len(self@.current),
                    self@.max_len as int,
                ).0,
            ) =~= concat_encodings(full.0));
        }
        loop
            invariant_except_break
                self.inv(),
                self@.store == old(self)@.store,
                self@.consensus_hash == old(self)@.consensus_hash,
                self@.max_len == old(self)@.max_len,
                self@.total_sent <= self@.max_len,
                full == tenure_walk(
                    old(self)@.store,
                    old(self)@.current,
                    old(self)@.parent_id,
                    old(self)@.consensus_hash,
                    old(self)@.max_len as int,
                ),
                acc@ + encode_block(self@.current).skip(self@.offset) + concat_encodings(
                    walk_rest(
                        self@.store,
                        self@.parent_id,
                        self@.consensus_hash,
                        self@.total_sent + encoded_len(self@.current),
                        self@.max_len as int,
                    ).0,
                ) == concat_encodings(full.0),
                walk_rest(
                    self@.store,
                    self@.parent_id,
                    self@.consensus_hash,
                    self@.total_sent + encoded_len(self@.current),
                    self@.max_len as int,
                ).1 == full.1,
            ensures
                acc@ == concat_encodings(full.0),
                full.1,
            decreases self@.max_len - self@.total_sent, encoded_len(self@.current) - self@.offset,
        {
            let ghost pre = self@;
            let ghost tail_total: int = pre.total_sent + encoded_len(pre.current);
            let ghost maxi: int = pre.max_len as int;
            let ghost walked = walk_rest(pre.store, pre.parent_id, pre.consensus_hash, tail_total, maxi);
            proof {
                crate::codec::lemma_encode_len(pre.current);
            }
            let chunk = match self.generate_next_chunk() {
                Err(e) => {
                    proof {
                        // only a missing parent errors, and then the walk flag is false
                        assert(pre.offset == encoded_len(pre.current));
                        assert(store_lookup(pre.store, pre.parent_id) is None);
                        assert(!walked.1);
                    }
                    return Err(e);
                },
                Ok(c) => c,
            };
            proof {
                let buf = encode_block(pre.current);
                if pre.offset < buf.len() {
                    // drained more of the current block: the chunk is the
                    // slice between the old and the new offset
                    assert(chunk@ + encode_block(self@.current).skip(self@.offset) =~= buf.skip(
                        pre.offset,
                    ));
                    assert(chunk@.len() > 0);
                } else {
                    assert(pre.offset == buf.len());
                    assert(buf.skip(pre.offset) =~= Seq::<u8>::empty());
                    let rec_opt = store_lookup(pre.store, pre.parent_id);
                    assert(rec_opt is Some);
                    let rec = rec_opt->Some_0;
                    crate::chain::lemma_store_lookup_wf(pre.store, pre.parent_id);
                    // the saturating counters stay exact under the budget bound
                    assert(sat_add_u64(pre.total_sent, pre.offset) == pre.total_sent + pre.offset)
                        by {
                        assert(encoded_len(pre.current) <= 88 + 0xffff_ffffint);
                    }
                    let nt = (pre.total_sent + pre.offset) as u64;
                    assert(nt == tail_total);
                    if rec.nakamoto && rec.block.consensus_hash == pre.consensus_hash {
                        assert(sat_add_u64(nt, encoded_len(rec.block)) == nt as int + encoded_len(
                            rec.block,
                        )) by {
                            assert(encoded_len(rec.block) <= 88 + 0xffff_ffffint);
                        }
                    }
                    if chunk@.len() == 0 {
                        // terminal: older format, tenure boundary, or budget
                        assert(walked.0 =~= Seq::<BlockView>::empty());
                        assert(walked.1);
                        assert(concat_encodings(walked.0) =~= Seq::<u8>::empty());
                        assert(acc@ =~= concat_encodings(full.0));
                    } else {
                        // advanced to the parent and emitted its first chunk
                        assert(rec.nakamoto && rec.block.consensus_hash == pre.consensus_hash);
                        assert(tail_total + encoded_len(rec.block) <= maxi);
                        let r2 = walk_rest(
                            pre.store,
                            rec.block.parent_block_id,
                            pre.consensus_hash,
                            tail_total + encoded_len(rec.block),
                            maxi,
                        );
                        assert(walked.0 == seq![rec.block] + r2.0);
                        assert(walked.1 == r2.1);
                        crate::codec::lemma_concat_cons(rec.block, r2.0);
                        assert(chunk@ + encode_block(self@.current).skip(self@.offset)
                            =~= encode_block(rec.block));
                        assert(self@.total_sent + encoded_len(self@.current) == tail_total
                            + encoded_len(rec.block));
                        assert(self@.total_sent <= self@.max_len);
                    }
                }
            }
            if chunk.len() == 0 {
                break;
            }
            crate::codec::append_bytes(&mut acc, &chunk);
            proof {
                assert(acc@ + encode_block(self@.current).skip(self@.offset) + concat_encodings(
                    walk_rest(
                        self@.store,
                        self@.parent_id,
                        self@.consensus_hash,
                        self@.total_sent + encoded_len(self@.current),
                        self@.max_len as int,
                    ).0,
                ) =~= concat_encodings(full.0));
            }
        }
        Ok(acc)
    }
}

/// Walk a tenure directly against storage, collecting the blocks a
/// stream over the same storage would serve: what a client obtains by
/// decoding a completed response.
pub fn walk_tenure(
    store: &ChainStore,
    block_id: &Vec<u8>,
    consensus_hash: &Vec<u8>,
    max_len: u64,
) -> (r: Result<Vec<NakamotoBlock>, ChainError>)
    requires
        wf_store(store@),
        budget_ok(max_len),
    ensures
        ({
            let sb = store_lookup(store@, block_id@);
            if sb is Some && sb->Some_0.nakamoto {
                let (bs, ok) = tenure_walk(
                    store@,
                    sb->Some_0.block,
                    sb->Some_0.block.parent_block_id,
                    consensus_hash@,
                    max_len as int,
                );
                &&& (r is Ok <==> ok)
                &&& (r is Ok ==> crate::codec::views_of_blocks(r->Ok_0@) == bs)
                &&& (r is Err ==> r->Err_0 == ChainError::NoSuchBlock)
            } else {
                r is Err && r->Err_0 == ChainError::NoSuchBlock
            }
        }),
{
    let start = match store.get_block_header_nakamoto(block_id) {
        None => {
            return Err(ChainError::NoSuchBlock);
        },
        Some(rec) => {
            if !rec.nakamoto {
                return Err(ChainError::NoSuchBlock);
            }
            crate::chain::clone_stored(rec)
        },
    };
    proof {
        crate::chain::lemma_store_lookup_wf(store@, block_id@);
    }
    let ghost full = tenure_walk(
        store@,
        start.block@,
        start.block@.parent_block_id,
        consensus_hash@,
        max_len as int,
    );
    let mut total: u64 = 88 + start.block.body.len() as u64;
    let mut parent_id: Vec<u8> = clone_bytes(&start.block.parent_block_id);
    let mut acc: Vec<NakamotoBlock> = Vec::new();
    let ghost start_view = start.block@;
    acc.push(start.block);
    proof {
        assert(crate::codec::views_of_blocks(acc@) =~= seq![start_view]);
        assert(seq![start_view] + walk_rest(
            store@,
            parent_id@,
            consensus_hash@,
            total as int,
            max_len as int,
        ).0 =~= full.0);
    }
    loop
        invariant_except_break
            wf_store(store@),
            budget_ok(max_len),
            store_lookup(store@, block_id@) is Some,
            store_lookup(store@, block_id@)->Some_0.nakamoto,
            full == tenure_walk(
                store@,
                store_lookup(store@, block_id@)->Some_0.block,
                store_lookup(store@, block_id@)->Some_0.block.parent_block_id,
                consensus_hash@,
                max_len as int,
            ),
            crate::codec::views_of_blocks(acc@) + walk_rest(
                store@,
                parent_id@,
                consensus_hash@,
                total as int,
                max_len as int,
            ).0 == full.0,
            walk_rest(store@, parent_id@, consensus_hash@, total as int, max_len as int).1
                == full.1,
        ensures
            crate::codec::views_of_blocks(acc@) == full.0,
            full.1,
        decreases (if total > max_len {
            0int
        } else {
            max_len - total
        }),
    {
        let ghost pre_walk = walk_rest(
            store@,
            parent_id@,
            consensus_hash@,
            total as int,
            max_len as int,
        );
        let rec = match store.get_block_header_nakamoto(&parent_id) {
            None => {
                proof {
                    assert(!full.1);
                }
                return Err(ChainError::NoSuchBlock);
            },
            Some(rec) => {
                if !rec.nakamoto {
                    proof {
                        assert(pre_walk.0 =~= Seq::<BlockView>::empty());
                        assert(crate::codec::views_of_blocks(acc@) + pre_walk.0
                            =~= crate::codec::views_of_blocks(acc@));
                    }
                    break;
                }
                crate::chain::clone_stored(rec)
            },
        };
        if !bytes_eq(&rec.block.consensus_hash, consensus_hash) {
            proof {
                assert(pre_walk.0 =~= Seq::<BlockView>::empty());
                assert(crate::codec::views_of_blocks(acc@) + pre_walk.0
                    =~= crate::codec::views_of_blocks(acc@));
            }
            break;
        }
        proof {
            crate::chain::lemma_store_lookup_wf(store@, parent_id@);
        }
        let size: u64 = 88 + rec.block.body.len() as u64;
        let would: u64 = if size > u64::MAX - total {
            u64::MAX
        } else {
            total + size
        };
        if would > max_len {
            proof {
                assert(total as int + encoded_len(rec.block@) > max_len as int);
                assert(pre_walk.0 =~= Seq::<BlockView>::empty());
                assert(crate::codec::views_of_blocks(acc@) + pre_walk.0
                    =~= crate::codec::views_of_blocks(acc@));
            }
            break;
        }
        proof {
            assert(total as int + encoded_len(rec.block@) <= max_len as int);
        }
        total = would;
        parent_id = clone_bytes(&rec.block.parent_block_id);
        let ghost rec_view = rec.block@;
        acc.push(rec.block);
        proof {
            assert(crate::codec::views_of_blocks(acc@) =~= crate::codec::views_of_blocks(
                acc@.drop_last(),
            ) + seq![rec_view]);
            let r2 = walk_rest(store@, parent_id@, consensus_hash@, total as int, max_len as int);
            assert(pre_walk.0 == seq![rec_view] + r2.0);
            assert(crate::codec::views_of_blocks(acc@) + r2.0 =~= crate::codec::views_of_blocks(
                acc@.drop_last(),
            ) + pre_walk.0);
        }
    }
    Ok(acc)
}

/// Budget termination: when the walk's next in-tenure ancestor exists in
/// the newer format, the stream stopped exactly because including it
/// would push the total past the budget — every block it did include
/// after the first kept the running total within the budget.
pub proof fn lemma_tenure_budget_termination(
    store: Seq<StoredBlockView>,
    start: BlockView,
    ch: Seq<u8>,
    max: int,
)
    requires
        wf_store(store),
        wf_block(start),
        ({
            let (bs, ok) = tenure_walk(store, start, start.parent_block_id, ch, max);
            let np = store_lookup(store, bs.last().parent_block_id);
            &&& ok
            &&& np is Some
            &&& np->Some_0.nakamoto
            &&& np->Some_0.block.consensus_hash == ch
        }),
    ensures
        ({
            let (bs, ok) = tenure_walk(store, start, start.parent_block_id, ch, max);
            let np = store_lookup(store, bs.last().parent_block_id);
            &&& concat_encodings(bs).len() + encoded_len(np->Some_0.block) > max
            &&& forall|j: int|
                2 <= j <= bs.len() ==> concat_encodings(#[trigger] bs.take(j)).len() <= max
        }),
{
    let (bs, ok) = tenure_walk(store, start, start.parent_block_id, ch, max);
    let total0 = encoded_len(start);
    let r = walk_rest(store, start.parent_block_id, ch, total0, max);
    lemma_walk_rest_blocks(store, start.parent_block_id, ch, total0, max);
    lemma_walk_rest_stop(store, start.parent_block_id, ch, total0, max);
    crate::codec::lemma_encode_len(start);
    crate::codec::lemma_concat_cons(start, r.0);
    if r.0.len() == 0 {
        assert(bs.last() == start);
        assert(walk_next_parent(r.0, start.parent_block_id) == start.parent_block_id);
        assert(concat_encodings(r.0) =~= Seq::<u8>::empty());
    } else {
        assert(bs.last() == r.0.last());
        assert(walk_next_parent(r.0, start.parent_block_id) == r.0.last().parent_block_id);
    }
    assert forall|j: int| 2 <= j <= bs.len() implies concat_encodings(#[trigger] bs.take(j)).len()
        <= max by {
        assert(bs.take(j) =~= seq![start] + r.0.take(j - 1));
        crate::codec::lemma_concat_cons(start, r.0.take(j - 1));
        assert(total0 + concat_encodings(r.0.take(j - 1)).len() <= max);
    }
}

/// Boundary termination: when the walk's next ancestor exists but
/// carries another consensus hash, the stream never crossed the tenure
/// boundary — every streamed block carries the tenure's consensus hash,
/// and the cross-tenure ancestor is not among them, whatever byte budget
/// remained.
pub proof fn lemma_tenure_boundary_termination(
    store: Seq<StoredBlockView>,
    start: BlockView,
    ch: Seq<u8>,
    max: int,
)
    requires
        wf_store(store),
        ch == start.consensus_hash,
        ({
            let (bs, ok) = tenure_walk(store, start, start.parent_block_id, ch, max);
            let np = store_lookup(store, bs.last().parent_block_id);
            &&& ok
            &&& np is Some
            &&& np->Some_0.block.consensus_hash != ch
        }),
    ensures
        ({
            let (bs, ok) = tenure_walk(store, start, start.parent_block_id, ch, max);
            let np = store_lookup(store, bs.last().parent_block_id);
            &&& forall|i: int| 0 <= i < bs.len() ==> (#[trigger] bs[i]).consensus_hash == ch
            &&& !bs.contains(np->Some_0.block)
        }),
{
    let (bs, ok) = tenure_walk(store, start, start.parent_block_id, ch, max);
    let np = store_lookup(store, bs.last().parent_block_id);
    let total0 = encoded_len(start);
    let r = walk_rest(store, start.parent_block_id, ch, total0, max);
    lemma_walk_rest_blocks(store, start.parent_block_id, ch, total0, max);
    assert forall|i: int| 0 <= i < bs.len() implies (#[trigger] bs[i]).consensus_hash == ch by {
        if i > 0 {
            assert(bs[i] == r.0[i - 1]);
        }
    }
    if bs.contains(np->Some_0.block) {
        let i = choose|i: int| 0 <= i < bs.len() && bs[i] == np->Some_0.block;
        assert(bs[i].consensus_hash == ch);
    }
}

/// When a walk ends at an ancestor of the older format or of another
/// tenure — not for the budget — a larger budget walks exactly the same
/// blocks: the boundary cuts the stream whatever room is left.
pub proof fn lemma_walk_rest_boundary_budget_irrelevant(
    store: Seq<StoredBlockView>,
    parent_id: Seq<u8>,
    ch: Seq<u8>,
    total: int,
    max: int,
    max2: int,
)
    requires
        max <= max2,
        ({
            let (bs, ok) = walk_rest(store, parent_id, ch, total, max);
            let np = store_lookup(store, walk_next_parent(bs, parent_id));
            &&& ok
            &&& np is Some
            &&& (!np->Some_0.nakamoto || np->Some_0.block.consensus_hash != ch)
        }),
    ensures
        walk_rest(store, parent_id, ch, total, max2) == walk_rest(store, parent_id, ch, total, max),
    decreases max - total,
{
    let (bs, ok) = walk_rest(store, parent_id, ch, total, max);
    match store_lookup(store, parent_id) {
        None => {},
        Some(rec) => {
            if !rec.nakamoto || rec.block.consensus_hash != ch {
                // both walks stop right here, for a reason no budget changes
            } else if total + encoded_len(rec.block) > max {
                // the walk would have stopped for the budget, but then its
                // next parent would be this in-tenure newer-format record,
                // which the premise rules out
                assert(walk_next_parent(bs, parent_id) == parent_id);
                assert(false);
            } else {
                let size = encoded_len(rec.block);
                let r = walk_rest(store, rec.block.parent_block_id, ch, total + size, max);
                assert(bs == seq![rec.block] + r.0);
                if r.0.len() == 0 {
                    assert(walk_next_parent(bs, parent_id) == rec.block.parent_block_id);
                } else {
                    assert(bs.last() == r.0.last());
                }
                lemma_walk_rest_boundary_budget_irrelevant(
                    store,
                    rec.block.parent_block_id,
                    ch,
                    total + size,
                    max,
                    max2,
                );
            }
        },
    }
}

/// Boundary termination is budget-independent: when the stream stopped
/// at a cross-tenure ancestor, re-running it with any larger byte
/// budget serves exactly the same blocks.
pub proof fn lemma_tenure_boundary_budget_irrelevant(
    store: Seq<StoredBlockView>,
    start: BlockView,
    ch: Seq<u8>,
    max: int,
    max2: int,
)
    requires
        max <= max2,
        ({
            let (bs, ok) = tenure_walk(store, start, start.parent_block_id, ch, max);
            let np = store_lookup(store, bs.last().parent_block_id);
            &&& ok
            &&& np is Some
            &&& np->Some_0.block.consensus_hash != ch
        }),
    ensures
        tenure_walk(store, start, start.parent_block_id, ch, max2) == tenure_walk(
            store,
            start,
            start.parent_block_id,
            ch,
            max,
        ),
{
    let (bs, ok) = tenure_walk(store, start, start.parent_block_id, ch, max);
    let total0 = encoded_len(start);
    let r = walk_rest(store, start.parent_block_id, ch, total0, max);
    if r.0.len() == 0 {
        assert(bs.last() == start);
        assert(walk_next_parent(r.0, start.parent_block_id) == start.parent_block_id);
    } else {
        assert(bs.last() == r.0.last());
    }
    lemma_walk_rest_boundary_budget_irrelevant(
        store,
        start.parent_block_id,
        ch,
        total0,
        max,
        max2,
    );
}

/// Round trip: the concatenation of every chunk of a completed tenure
/// stream decodes, block by block, back to exactly the walked block
/// list.
pub proof fn lemma_tenure_round_trip(
    store: Seq<StoredBlockView>,
    start: BlockView,
    parent_id: Seq<u8>,
    ch: Seq<u8>,
    max: int,
)
    requires
        wf_store(store),
        wf_block(start),
    ensures
        ({
            let (bs, ok) = tenure_walk(store, start, parent_id, ch, max);
            crate::codec::decode_all(concat_encodings(bs)) == Some(bs)
        }),
{
    let (bs, ok) = tenure_walk(store, start, parent_id, ch, max);
    let r = walk_rest(store, parent_id, ch, encoded_len(start), max);
    lemma_walk_rest_blocks(store, parent_id, ch, encoded_len(start), max);
    assert forall|i: int| 0 <= i < bs.len() implies wf_block(#[trigger] bs[i]) by {
        if i > 0 {
            assert(bs[i] == r.0[i - 1]);
            assert(block_in_store(store, r.0[i - 1]));
            let j = choose|j: int|
                0 <= j < store.len() && (#[trigger] store[j]).block == r.0[i - 1]
                    && store[j].nakamoto;
            assert(wf_block(store[j].block));
        }
    }
    crate::codec::lemma_decode_concat(bs);
}

} // verus!
