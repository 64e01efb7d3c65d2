//! The tenure RPC: `GET /v3/tenures/{block_id}` where the id is exactly
//! 64 lowercase hex characters.  The handler parses the request, opens a
//! tenure stream over storage, and maps failures to HTTP statuses at
//! the boundary.

use vstd::prelude::*;

use crate::chain::{store_lookup, wf_store, ChainStore};
use crate::encoding::{bytes_of_hex, hex_decode, hex_encode, hex_of, is_hex_digit};
use crate::errors::{ChainError, HttpError, TenureRpcError};
use crate::tenure::{NakamotoTenureStream, TenureStreamView, MAX_MESSAGE_LEN};

verus! {

/// The bytes of the route prefix "/v3/tenures/".
pub open spec fn tenure_path_prefix() -> Seq<u8> {
    seq![47u8, 118u8, 51u8, 47u8, 116u8, 101u8, 110u8, 117u8, 114u8, 101u8, 115u8, 47u8]
}

/// Whether a request path matches the tenure route: the prefix followed
/// by exactly 64 lowercase hex digits.
pub open spec fn is_tenure_path(p: Seq<u8>) -> bool {
    &&& p.len() == 76
    &&& p.subrange(0, 12) == tenure_path_prefix()
    &&& forall|i: int| 12 <= i < 76 ==> is_hex_digit(#[trigger] p[i])
}

/// The 32-byte block id a tenure path names.
pub open spec fn path_block_id(p: Seq<u8>) -> Seq<u8> {
    bytes_of_hex(p.subrange(12, 76))
}

/// The route prefix as bytes.
pub fn tenure_path_prefix_bytes() -> (r: Vec<u8>)
    ensures
        r@ == tenure_path_prefix(),
{
    let mut r: Vec<u8> = Vec::new();
    r.push(47);
    r.push(118);
    r.push(51);
    r.push(47);
    r.push(116);
    r.push(101);
    r.push(110);
    r.push(117);
    r.push(114);
    r.push(101);
    r.push(115);
    r.push(47);
    proof {
        assert(r@ =~= tenure_path_prefix());
    }
    r
}

/// Parse a request path against the tenure route, returning the block
/// id it names.  `None` exactly when the path does not match the route.
pub fn parse_tenure_path(path: &Vec<u8>) -> (r: Option<Vec<u8>>)
    ensures
        r is Some <==> is_tenure_path(path@),
        r is Some ==> r->Some_0@ == path_block_id(path@) && r->Some_0@.len() == 32,
{
    if path.len() != 76 {
        return None;
    }
    let prefix = tenure_path_prefix_bytes();
    let mut i: usize = 0;
    while i < 12
        invariant
            i <= 12,
            path@.len() == 76,
            prefix@ == tenure_path_prefix(),
            forall|j: int| 0 <= j < i ==> path@[j] == prefix@[j],
        decreases 12 - i,
    {
        if path[i] != prefix[i] {
            proof {
                assert(path@.subrange(0, 12) != tenure_path_prefix()) by {
                    assert(path@.subrange(0, 12)[i as int] != tenure_path_prefix()[i as int]);
                }
            }
            return None;
        }
        i = i + 1;
    }
    proof {
        assert(path@.subrange(0, 12) =~= tenure_path_prefix());
    }
    let mut hex_part: Vec<u8> = Vec::new();
    crate::codec::copy_range(path, 12, 64, &mut hex_part);
    match hex_decode(&hex_part) {
        None => {
            proof {
                assert(hex_part@.len() % 2 == 0);
                let k = choose|k: int| 0 <= k < 64 && !is_hex_digit(hex_part@[k]);
                assert(path@[12 + k] == hex_part@[k]);
            }
            None
        },
        Some(id) => {
            proof {
                assert forall|j: int| 12 <= j < 76 implies is_hex_digit(#[trigger] path@[j]) by {
                    assert(hex_part@[j - 12] == path@[j]);
                }
                assert(id@ == path_block_id(path@));
            }
            Some(id)
        },
    }
}

/// A tenure path built from a 32-byte id parses back to that id.
pub proof fn lemma_tenure_path_round_trip(id: Seq<u8>)
    requires
        id.len() == 32,
    ensures
        is_tenure_path(tenure_path_prefix() + hex_of(id)),
        path_block_id(tenure_path_prefix() + hex_of(id)) == id,
{
    let p = tenure_path_prefix() + hex_of(id);
    crate::encoding::lemma_hex_round_trip(id);
    assert(p.subrange(0, 12) =~= tenure_path_prefix());
    assert forall|i: int| 12 <= i < 76 implies is_hex_digit(#[trigger] p[i]) by {
        assert(p[i] == hex_of(id)[i - 12]);
    }
    assert(p.subrange(12, 76) =~= hex_of(id));
}

/// What the handler reads of an incoming request's preamble.
pub struct HttpRequestPreamble {
    pub content_length: u32,
}

impl HttpRequestPreamble {
    /// The declared length of the request body.
    pub fn get_content_length(&self) -> (r: u32)
        ensures
            r == self.content_length,
    {
        self.content_length
    }
}

/// What the client reads of a response's preamble.
pub struct HttpResponsePreamble {
    pub status_code: u16,
}

/// A request addressed to a peer: the target, the verb, and the path.
pub struct StacksHttpRequest {
    pub host: String,
    pub port: u16,
    pub verb: Vec<u8>,
    pub path: Vec<u8>,
}

impl StacksHttpRequest {
    /// Build the request that asks a peer for a tenure, starting from
    /// the named block.
    pub fn new_get_nakamoto_tenure(host: String, port: u16, block_id: &Vec<u8>) -> (r:
        StacksHttpRequest)
        requires
            block_id@.len() == 32,
        ensures
            r.host@ == host@,
            r.port == port,
            r.verb@ == seq![71u8, 69u8, 84u8],
            r.path@ == tenure_path_prefix() + hex_of(block_id@),
            is_tenure_path(r.path@),
            path_block_id(r.path@) == block_id@,
    {
        let mut path = tenure_path_prefix_bytes();
        let hex = hex_encode(block_id);
        crate::codec::append_bytes(&mut path, &hex);
        let mut verb: Vec<u8> = Vec::new();
        verb.push(71);
        verb.push(69);
        verb.push(84);
        proof {
            assert(verb@ =~= seq![71u8, 69u8, 84u8]);
            lemma_tenure_path_round_trip(block_id@);
        }
        StacksHttpRequest { host, port, verb, path }
    }
}

/// Handler of the tenure route.  It parses a request into the block to
/// start streaming from, then turns that block into a stream over
/// storage.
pub struct RPCNakamotoTenureRequestHandler {
    /// Block to start streaming from.  It and its ancestors are
    /// streamed until the tenure's first block is reached or the byte
    /// budget would be exceeded by the next block.
    pub block_id: Option<Vec<u8>>,
}

impl RPCNakamotoTenureRequestHandler {
    pub fn new() -> (r: Self)
        ensures
            r.block_id is None,
    {
        Self { block_id: None }
    }

    /// The verb of the tenure route.
    pub fn verb(&self) -> (r: &'static str)
        ensures
            r@ == "GET"@,
    {
        "GET"
    }

    /// Reset internal state.
    pub fn restart(&mut self)
        ensures
            final(self).block_id is None,
    {
        self.block_id = None;
    }

    /// Decode a request: it must carry no body and its path must match
    /// the tenure route; the named block id is kept for handling.
    pub fn try_parse_request(&mut self, preamble: &HttpRequestPreamble, path: &Vec<u8>) -> (r:
        Result<(), HttpError>)
        ensures
            r is Ok <==> (preamble.content_length == 0 && is_tenure_path(path@)),
            r is Ok ==> final(self).block_id is Some && final(self).block_id->Some_0@
                == path_block_id(path@),
            r is Err ==> final(self).block_id == old(self).block_id && r->Err_0
                == HttpError::DecodeError,
    {
        if self.get_content_length_of(preamble) != 0 {
            return Err(HttpError::DecodeError);
        }
        match parse_tenure_path(path) {
            None => Err(HttpError::DecodeError),
            Some(id) => {
                self.block_id = Some(id);
                Ok(())
            },
        }
    }

    fn get_content_length_of(&self, preamble: &HttpRequestPreamble) -> (r: u32)
        ensures
            r == preamble.content_length,
    {
        preamble.get_content_length()
    }

    /// Handle a parsed request: open a tenure stream over the given
    /// storage connection, starting from the block parsed out of the
    /// path.  The parsed id is consumed either way.  A block that is
    /// missing or not of the newer format is not found (404); a handler
    /// driven without a parsed id is an internal error (500).
    pub fn try_handle_request(&mut self, store: ChainStore) -> (r: Result<
        NakamotoTenureStream,
        TenureRpcError,
    >)
        requires
            wf_store(store@),
        ensures
            final(self).block_id is None,
            old(self).block_id is None ==> r is Err && r->Err_0 == TenureRpcError::MissingBlockId,
            old(self).block_id is Some ==> {
                let sb = store_lookup(store@, old(self).block_id->Some_0@);
                if sb is Some && sb->Some_0.nakamoto {
                    &&& r is Ok
                    &&& r->Ok_0.inv()
                    &&& r->Ok_0@ == (TenureStreamView {
                        store: store@,
                        current: sb->Some_0.block,
                        offset: 0,
                        parent_id: sb->Some_0.block.parent_block_id,
                        consensus_hash: sb->Some_0.block.consensus_hash,
                        total_sent: 0,
                        max_len: MAX_MESSAGE_LEN,
                    })
                } else {
                    r is Err && r->Err_0 == TenureRpcError::NotFound
                }
            },
    {
        let block_id = match self.block_id.take() {
            None => {
                return Err(TenureRpcError::MissingBlockId);
            },
            Some(id) => id,
        };
        let (consensus_hash, parent_block_id) = match store.get_block_header_nakamoto(&block_id) {
            None => {
                return Err(TenureRpcError::NotFound);
            },
            Some(rec) => {
                if !rec.nakamoto {
                    return Err(TenureRpcError::NotFound);
                }
                (
                    crate::encoding::clone_bytes(&rec.block.consensus_hash),
                    crate::encoding::clone_bytes(&rec.block.parent_block_id),
                )
            },
        };
        proof {
            crate::chain::lemma_store_lookup_wf(store@, block_id@);
        }
        match NakamotoTenureStream::new(store, &block_id, consensus_hash, parent_block_id) {
            Ok(stream) => Ok(stream),
            Err(ChainError::NoSuchBlock) => Err(TenureRpcError::NotFound),
        }
    }

    /// Decode a tenure response body on the client side: the raw bytes,
    /// refused when they exceed the message cap.
    pub fn try_parse_response(&self, _preamble: &HttpResponsePreamble, body: &Vec<u8>) -> (r:
        Result<Vec<u8>, HttpError>)
        ensures
            r is Ok <==> body@.len() <= MAX_MESSAGE_LEN,
            r is Ok ==> r->Ok_0@ == body@,
            r is Err ==> r->Err_0 == HttpError::DecodeError,
    {
        if (body.len() as u64) > MAX_MESSAGE_LEN {
            return Err(HttpError::DecodeError);
        }
        Ok(crate::encoding::clone_bytes(body))
    }
}

} // verus!
