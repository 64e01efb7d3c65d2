//! The narrow read interface onto block storage that streaming needs:
//! fetch a header by block id, and fetch the stored size of a block by
//! id.  A `ChainStore` stands for one connection to that storage.

use vstd::prelude::*;

use crate::codec::{encoded_len, wf_block, BlockView, NakamotoBlock};

verus! {

/// One stored block: its record plus whether it is of the newer block
/// format (older-format blocks are looked up by id but are never
/// streamed).
pub struct StoredBlock {
    /// Whether the block is of the newer format that tenure streaming
    /// serves.
    pub nakamoto: bool,
    pub block: NakamotoBlock,
}

/// Mathematical image of a stored block.
#[verifier::ext_equal]
pub struct StoredBlockView {
    pub nakamoto: bool,
    pub block: BlockView,
}

impl View for StoredBlock {
    type V = StoredBlockView;

    open spec fn view(&self) -> StoredBlockView {
        StoredBlockView { nakamoto: self.nakamoto, block: self.block@ }
    }
}

/// A connection to block storage, holding the records that lookups can
/// reach.
pub struct ChainStore {
    pub blocks: Vec<StoredBlock>,
}

impl View for ChainStore {
    type V = Seq<StoredBlockView>;

    open spec fn view(&self) -> Seq<StoredBlockView> {
        self.blocks@.map_values(|b: StoredBlock| b@)
    }
}

/// The record a lookup by block id finds: the first stored block whose
/// id matches.
pub open spec fn store_lookup(s: Seq<StoredBlockView>, id: Seq<u8>) -> Option<StoredBlockView>
    decreases s.len(),
{
    if s.len() == 0 {
        None
    } else if s[0].block.block_id == id {
        Some(s[0])
    } else {
        store_lookup(s.drop_first(), id)
    }
}

/// Well-formedness of a store: every record's block has its fixed-width
/// hashes and a body that fits the length prefix.
pub open spec fn wf_store(s: Seq<StoredBlockView>) -> bool {
    forall|i: int| 0 <= i < s.len() ==> wf_block(#[trigger] s[i].block)
}

/// Whatever a lookup finds is one of the store's records.
pub proof fn lemma_store_lookup_member(s: Seq<StoredBlockView>, id: Seq<u8>)
    requires
        store_lookup(s, id) is Some,
    ensures
        exists|i: int|
            0 <= i < s.len() && s[i] == store_lookup(s, id)->Some_0,
        store_lookup(s, id)->Some_0.block.block_id == id,
    decreases s.len(),
{
    if s.len() > 0 {
        if s[0].block.block_id == id {
        } else {
            lemma_store_lookup_member(s.drop_first(), id);
            let j = choose|j: int|
                0 <= j < s.drop_first().len() && s.drop_first()[j] == store_lookup(
                    s.drop_first(),
                    id,
                )->Some_0;
            assert(s[j + 1] == s.drop_first()[j]);
        }
    }
}

/// In a well-formed store a found record's block is well formed.
pub proof fn lemma_store_lookup_wf(s: Seq<StoredBlockView>, id: Seq<u8>)
    requires
        wf_store(s),
        store_lookup(s, id) is Some,
    ensures
        wf_block(store_lookup(s, id)->Some_0.block),
{
    lemma_store_lookup_member(s, id);
}

/// Copy a stored block record.
pub fn clone_stored(rec: &StoredBlock) -> (r: StoredBlock)
    ensures
        r@ == rec@,
{
    let block = NakamotoBlock {
        block_id: crate::encoding::clone_bytes(&rec.block.block_id),
        parent_block_id: crate::encoding::clone_bytes(&rec.block.parent_block_id),
        consensus_hash: crate::encoding::clone_bytes(&rec.block.consensus_hash),
        body: crate::encoding::clone_bytes(&rec.block.body),
    };
    let r = StoredBlock { nakamoto: rec.nakamoto, block };
    proof {
        assert(r@.block =~= rec@.block);
        assert(r@ =~= rec@);
    }
    r
}

impl ChainStore {
    /// Whether every stored block is well formed, so callers outside
    /// the library can test what the lookups and the stream require.
    pub fn check_wf(&self) -> (r: bool)
        ensures
            r == wf_store(self@),
    {
        let mut i: usize = 0;
        while i < self.blocks.len()
            invariant
                i <= self@.len(),
                forall|j: int| 0 <= j < i ==> wf_block((#[trigger] self@[j]).block),
            decreases self.blocks.len() - i,
        {
            if !self.blocks[i].block.check_wf() {
                proof {
                    assert(self@[i as int] == self.blocks@[i as int]@);
                    assert(!wf_block(self@[i as int].block));
                }
                return false;
            }
            proof {
                assert(self@[i as int] == self.blocks@[i as int]@);
            }
            i = i + 1;
        }
        proof {
            assert forall|j: int| 0 <= j < self@.len() implies wf_block(
                (#[trigger] self@[j]).block,
            ) by {}
        }
        true
    }

    /// Look up a block header by id, as the storage collaborator does.
    pub fn get_block_header_nakamoto(&self, block_id: &Vec<u8>) -> (r: Option<&StoredBlock>)
        ensures
            r is Some <==> store_lookup(self@, block_id@) is Some,
            r is Some ==> r->Some_0@ == store_lookup(self@, block_id@)->Some_0,
    {
        let mut i: usize = 0;
        proof {
            assert(self@.skip(0) =~= self@);
        }
        while i < self.blocks.len()
            invariant
                i <= self@.len(),
                store_lookup(self@, block_id@) == store_lookup(self@.skip(i as int), block_id@),
            decreases self@.len() - i,
        {
            if crate::encoding::bytes_eq(&self.blocks[i].block.block_id, block_id) {
                proof {
                    assert(self@.skip(i as int)[0] == self@[i as int]);
                }
                return Some(&self.blocks[i]);
            }
            proof {
                assert(self@.skip(i as int).drop_first() =~= self@.skip(i + 1));
                assert(self@.skip(i as int)[0] == self@[i as int]);
            }
            i = i + 1;
        }
        proof {
            assert(self@.skip(i as int) =~= Seq::<StoredBlockView>::empty());
        }
        None
    }

    /// The stored size in bytes of a block of the newer format, or
    /// nothing when no such block is stored under the id.
    pub fn get_nakamoto_block_size(&self, block_id: &Vec<u8>) -> (r: Option<u64>)
        requires
            wf_store(self@),
        ensures
            r is Some <==> (store_lookup(self@, block_id@) is Some && store_lookup(
                self@,
                block_id@,
            )->Some_0.nakamoto),
            r is Some ==> r->Some_0 == encoded_len(store_lookup(self@, block_id@)->Some_0.block),
    {
        match self.get_block_header_nakamoto(block_id) {
            None => None,
            Some(rec) => {
                if rec.nakamoto {
                    proof {
                        lemma_store_lookup_wf(self@, block_id@);
                    }
                    Some(88u64 + rec.block.body.len() as u64)
                } else {
                    None
                }
            },
        }
    }
}

} // verus!
