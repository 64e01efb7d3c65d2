//! The subscription registry and dispatch matrix builder.  Observers
//! are appended once and identified by their dense index; per-topic
//! interest sets hold those indices; a batch of receipts is flattened
//! into one ordered event list and partitioned per observer in a single
//! pass.

use vstd::prelude::*;

use crate::events::{
    asset_id_eq, clone_contract_key, clone_event, contract_key_eq, flatten_receipts,
    receipt_records, AssetIdView, AssetIdentifier, ContractEventKey, ContractEventKeyView,
    EventKeyType, EventKeyTypeView, EventObserverConfig, EventRecord, EventRecordView, EventView,
    ReceiptView, StacksTransactionEvent, StacksTransactionReceipt,
};

verus! {

/// An external delivery target: its configured endpoint.
pub struct EventObserver {
    pub endpoint: String,
}

/// Whether an association list of interest sets gives observer `o` an
/// interest in key `k`.
pub open spec fn keyed_interest<K>(entries: Seq<(K, Seq<u16>)>, k: K, o: u16) -> bool {
    exists|j: int|
        0 <= j < entries.len() && (#[trigger] entries[j]).0 == k && entries[j].1.contains(o)
}

/// Mathematical image of the registry: the observer endpoints in
/// registration order, and each topic's interest set.
#[verifier::ext_equal]
pub struct DispatcherView {
    pub observers: Seq<Seq<char>>,
    pub contract_events: Seq<(ContractEventKeyView, Seq<u16>)>,
    pub assets: Seq<(AssetIdView, Seq<u16>)>,
    pub burn_blocks: Seq<u16>,
    pub mempool: Seq<u16>,
    pub microblocks: Seq<u16>,
    pub stx: Seq<u16>,
    pub any_event: Seq<u16>,
    pub miner: Seq<u16>,
    pub mined_microblocks: Seq<u16>,
    pub stackerdb: Seq<u16>,
    pub block_proposal: Seq<u16>,
}

/// The registry of observers and their per-topic interest sets.
pub struct EventDispatcher {
    /// Configured observers; the fields below hold indices into this
    /// list.
    pub registered_observers: Vec<EventObserver>,
    /// Smart-contract event interest, keyed by (contract, event name).
    pub contract_events_observers_lookup: Vec<(ContractEventKey, Vec<u16>)>,
    /// Asset event interest, keyed by fully-qualified asset identifier.
    pub assets_observers_lookup: Vec<(AssetIdentifier, Vec<u16>)>,
    /// Observers of burn-block events.
    pub burn_block_observers_lookup: Vec<u16>,
    /// Observers of mempool events.
    pub mempool_observers_lookup: Vec<u16>,
    /// Observers of microblock events.
    pub microblock_observers_lookup: Vec<u16>,
    /// Observers of STX events.
    pub stx_observers_lookup: Vec<u16>,
    /// Observers of every event.
    pub any_event_observers_lookup: Vec<u16>,
    /// Observers of mined-block events.
    pub miner_observers_lookup: Vec<u16>,
    /// Observers of mined-microblock events.
    pub mined_microblocks_observers_lookup: Vec<u16>,
    /// Observers of StackerDB chunk events.
    pub stackerdb_observers_lookup: Vec<u16>,
    /// Observers of block proposal results.
    pub block_proposal_observers_lookup: Vec<u16>,
}

impl View for EventDispatcher {
    type V = DispatcherView;

    open spec fn view(&self) -> DispatcherView {
        DispatcherView {
            observers: self.registered_observers@.map_values(|ob: EventObserver| ob.endpoint@),
            contract_events: self.contract_events_observers_lookup@.map_values(
                |p: (ContractEventKey, Vec<u16>)| (p.0@, p.1@),
            ),
            assets: self.assets_observers_lookup@.map_values(
                |p: (AssetIdentifier, Vec<u16>)| (p.0@, p.1@),
            ),
            burn_blocks: self.burn_block_observers_lookup@,
            mempool: self.mempool_observers_lookup@,
            microblocks: self.microblock_observers_lookup@,
            stx: self.stx_observers_lookup@,
            any_event: self.any_event_observers_lookup@,
            miner: self.miner_observers_lookup@,
            mined_microblocks: self.mined_microblocks_observers_lookup@,
            stackerdb: self.stackerdb_observers_lookup@,
            block_proposal: self.block_proposal_observers_lookup@,
        }
    }
}

/// Whether an event's own topic gives observer `o` an interest in it:
/// contract events resolve through the keyed contract registry, STX
/// events through the flat STX set, and asset events through the keyed
/// asset registry.  The topic categories are mutually exclusive by
/// construction.
pub open spec fn event_topic_interest(d: DispatcherView, ev: EventView, o: u16) -> bool {
    match ev {
        EventView::SmartContractEvent { key } => keyed_interest(d.contract_events, key, o),
        EventView::StxTransferEvent => d.stx.contains(o),
        EventView::StxMintEvent => d.stx.contains(o),
        EventView::StxBurnEvent => d.stx.contains(o),
        EventView::StxLockEvent => d.stx.contains(o),
        EventView::NftTransferEvent { asset_identifier } => keyed_interest(
            d.assets,
            asset_identifier,
            o,
        ),
        EventView::NftMintEvent { asset_identifier } => keyed_interest(
            d.assets,
            asset_identifier,
            o,
        ),
        EventView::NftBurnEvent { asset_identifier } => keyed_interest(
            d.assets,
            asset_identifier,
            o,
        ),
        EventView::FtTransferEvent { asset_identifier } => keyed_interest(
            d.assets,
            asset_identifier,
            o,
        ),
        EventView::FtMintEvent { asset_identifier } => keyed_interest(
            d.assets,
            asset_identifier,
            o,
        ),
        EventView::FtBurnEvent { asset_identifier } => keyed_interest(
            d.assets,
            asset_identifier,
            o,
        ),
    }
}

/// Whether observer `o` receives an event: its topic matches one of the
/// observer's subscriptions, or the observer subscribes to every event.
pub open spec fn dispatches_to(d: DispatcherView, ev: EventView, o: u16) -> bool {
    d.any_event.contains(o) || event_topic_interest(d, ev, o)
}

/// A dispatch matrix row for observer `o`: the event indices it should
/// receive, in increasing order, exactly those whose event dispatches
/// to it.
pub open spec fn row_filtered(
    d: DispatcherView,
    events: Seq<EventRecordView>,
    o: u16,
    row: Seq<usize>,
) -> bool {
    &&& forall|a: int, b: int| 0 <= a < b < row.len() ==> row[a] < row[b]
    &&& forall|j: int|
        0 <= j < row.len() ==> (#[trigger] row[j] as int) < events.len() && dispatches_to(
            d,
            events[row[j] as int].event,
            o,
        )
    &&& forall|i: usize|
        (i as int) < events.len() && dispatches_to(d, events[i as int].event, o)
            ==> #[trigger] row.contains(i)
}

/// Whether an observer is picked by a flat interest set, or by the
/// any-event set when `include_any` is set.
pub open spec fn observer_selected(
    d: DispatcherView,
    lookup: Seq<u16>,
    include_any: bool,
    o: u16,
) -> bool {
    lookup.contains(o) || (include_any && d.any_event.contains(o))
}

/// A row with one event index added, once.
pub open spec fn row_insert(row: Seq<usize>, i: usize, c: bool) -> Seq<usize> {
    if c && !row.contains(i) {
        row.push(i)
    } else {
        row
    }
}

/// The effect of registering one observer under index `idx` with the
/// subscription keys `sub`, on top of the registry state `d0`: each
/// topic's interest holds exactly what it held before, plus `idx` for
/// exactly the topics that `sub` names.
pub open spec fn registration_effect(
    d0: DispatcherView,
    d: DispatcherView,
    sub: Seq<EventKeyTypeView>,
    idx: u16,
) -> bool {
    &&& forall|k: ContractEventKeyView, o: u16|
        #[trigger] keyed_interest(d.contract_events, k, o) <==> (keyed_interest(
            d0.contract_events,
            k,
            o,
        ) || (o == idx && sub.contains(EventKeyTypeView::SmartContractEvent(k))))
    &&& forall|a: AssetIdView, o: u16|
        #[trigger] keyed_interest(d.assets, a, o) <==> (keyed_interest(d0.assets, a, o) || (o
            == idx && sub.contains(EventKeyTypeView::AssetEvent(a))))
    &&& forall|o: u16|
        #[trigger] d.burn_blocks.contains(o) <==> (d0.burn_blocks.contains(o) || (o == idx
            && sub.contains(EventKeyTypeView::BurnchainBlocks)))
    &&& forall|o: u16|
        #[trigger] d.mempool.contains(o) <==> (d0.mempool.contains(o) || (o == idx
            && sub.contains(EventKeyTypeView::MemPoolTransactions)))
    &&& forall|o: u16|
        #[trigger] d.microblocks.contains(o) <==> (d0.microblocks.contains(o) || (o == idx
            && sub.contains(EventKeyTypeView::Microblocks)))
    &&& forall|o: u16|
        #[trigger] d.stx.contains(o) <==> (d0.stx.contains(o) || (o == idx && sub.contains(
            EventKeyTypeView::STXEvent,
        )))
    &&& forall|o: u16|
        #[trigger] d.any_event.contains(o) <==> (d0.any_event.contains(o) || (o == idx
            && sub.contains(EventKeyTypeView::AnyEvent)))
    &&& forall|o: u16|
        #[trigger] d.miner.contains(o) <==> (d0.miner.contains(o) || (o == idx && sub.contains(
            EventKeyTypeView::MinedBlocks,
        )))
    &&& forall|o: u16|
        #[trigger] d.mined_microblocks.contains(o) <==> (d0.mined_microblocks.contains(o) || (o
            == idx && sub.contains(EventKeyTypeView::MinedMicroblocks)))
    &&& forall|o: u16|
        #[trigger] d.stackerdb.contains(o) <==> (d0.stackerdb.contains(o) || (o == idx
            && sub.contains(EventKeyTypeView::StackerDBChunks)))
    &&& forall|o: u16|
        #[trigger] d.block_proposal.contains(o) <==> (d0.block_proposal.contains(o) || (o == idx
            && sub.contains(EventKeyTypeView::BlockProposal)))
}

/// What processing one subscription key does to the registry: the
/// key's own topic gains exactly `idx`, and nothing else changes.
pub open spec fn registration_step(
    dpre: DispatcherView,
    dpost: DispatcherView,
    k: EventKeyTypeView,
    idx: u16,
) -> bool {
    match k {
        EventKeyTypeView::SmartContractEvent(key) => {
            &&& dpost == (DispatcherView { contract_events: dpost.contract_events, ..dpre })
            &&& forall|k2: ContractEventKeyView, o: u16|
                #[trigger] keyed_interest(dpost.contract_events, k2, o) <==> (keyed_interest(
                    dpre.contract_events,
                    k2,
                    o,
                ) || (o == idx && k2 == key))
        },
        EventKeyTypeView::AssetEvent(key) => {
            &&& dpost == (DispatcherView { assets: dpost.assets, ..dpre })
            &&& forall|a: AssetIdView, o: u16|
                #[trigger] keyed_interest(dpost.assets, a, o) <==> (keyed_interest(
                    dpre.assets,
                    a,
                    o,
                ) || (o == idx && a == key))
        },
        EventKeyTypeView::BurnchainBlocks => {
            &&& dpost == (DispatcherView { burn_blocks: dpost.burn_blocks, ..dpre })
            &&& forall|o: u16|
                #[trigger] dpost.burn_blocks.contains(o) <==> (dpre.burn_blocks.contains(o) || o
                    == idx)
        },
        EventKeyTypeView::MemPoolTransactions => {
            &&& dpost == (DispatcherView { mempool: dpost.mempool, ..dpre })
            &&& forall|o: u16|
                #[trigger] dpost.mempool.contains(o) <==> (dpre.mempool.contains(o) || o == idx)
        },
        EventKeyTypeView::Microblocks => {
            &&& dpost == (DispatcherView { microblocks: dpost.microblocks, ..dpre })
            &&& forall|o: u16|
                #[trigger] dpost.microblocks.contains(o) <==> (dpre.microblocks.contains(o) || o
                    == idx)
        },
        EventKeyTypeView::STXEvent => {
            &&& dpost == (DispatcherView { stx: dpost.stx, ..dpre })
            &&& forall|o: u16|
                #[trigger] dpost.stx.contains(o) <==> (dpre.stx.contains(o) || o == idx)
        },
        EventKeyTypeView::AnyEvent => {
            &&& dpost == (DispatcherView { any_event: dpost.any_event, ..dpre })
            &&& forall|o: u16|
                #[trigger] dpost.any_event.contains(o) <==> (dpre.any_event.contains(o) || o
                    == idx)
        },
        EventKeyTypeView::MinedBlocks => {
            &&& dpost == (DispatcherView { miner: dpost.miner, ..dpre })
            &&& forall|o: u16|
                #[trigger] dpost.miner.contains(o) <==> (dpre.miner.contains(o) || o == idx)
        },
        EventKeyTypeView::MinedMicroblocks => {
            &&& dpost == (DispatcherView { mined_microblocks: dpost.mined_microblocks, ..dpre })
            &&& forall|o: u16|
                #[trigger] dpost.mined_microblocks.contains(o) <==> (
                dpre.mined_microblocks.contains(o) || o == idx)
        },
        EventKeyTypeView::StackerDBChunks => {
            &&& dpost == (DispatcherView { stackerdb: dpost.stackerdb, ..dpre })
            &&& forall|o: u16|
                #[trigger] dpost.stackerdb.contains(o) <==> (dpre.stackerdb.contains(o) || o
                    == idx)
        },
        EventKeyTypeView::BlockProposal => {
            &&& dpost == (DispatcherView { block_proposal: dpost.block_proposal, ..dpre })
            &&& forall|o: u16|
                #[trigger] dpost.block_proposal.contains(o) <==> (dpre.block_proposal.contains(o)
                    || o == idx)
        },
    }
}

/// Membership in a sequence extended by one element.
pub proof fn lemma_push_contains<T>(s: Seq<T>, x: T, y: T)
    ensures
        s.push(x).contains(y) <==> (s.contains(y) || x == y),
{
    let p = s.push(x);
    if p.contains(y) {
        let j = choose|j: int| 0 <= j < p.len() && #[trigger] p[j] == y;
        if j < s.len() {
            assert(s[j] == y);
        }
    }
    if s.contains(y) {
        let j = choose|j: int| 0 <= j < s.len() && #[trigger] s[j] == y;
        assert(p[j] == y);
    }
    if x == y {
        assert(p[s.len() as int] == y);
    }
}

/// Processing one more subscription key extends the registration
/// effect by exactly that key.
pub proof fn lemma_registration_step(
    d0: DispatcherView,
    dpre: DispatcherView,
    dpost: DispatcherView,
    sub: Seq<EventKeyTypeView>,
    k: EventKeyTypeView,
    idx: u16,
)
    requires
        registration_effect(d0, dpre, sub, idx),
        registration_step(dpre, dpost, k, idx),
    ensures
        registration_effect(d0, dpost, sub.push(k), idx),
{
    assert forall|x: EventKeyTypeView| #[trigger] sub.push(k).contains(x) <==> (sub.contains(x)
        || k == x) by {
        lemma_push_contains(sub, k, x);
    }
}

/// The registration effect does not speak of the observer list, so a
/// change of that list alone preserves it.
pub proof fn lemma_registration_observers_irrelevant(
    d0: DispatcherView,
    dpre: DispatcherView,
    dpost: DispatcherView,
    sub: Seq<EventKeyTypeView>,
    idx: u16,
)
    requires
        registration_effect(d0, dpre, sub, idx),
        dpost == (DispatcherView { observers: dpost.observers, ..dpre }),
    ensures
        registration_effect(d0, dpost, sub, idx),
{
}

/// The views of a vector of flattened event records.
pub open spec fn record_views(v: Seq<EventRecord>) -> Seq<EventRecordView> {
    v.map_values(|r: EventRecord| r@)
}

/// The views of a vector of receipts.
pub open spec fn receipt_views(v: Seq<StacksTransactionReceipt>) -> Seq<ReceiptView> {
    v.map_values(|r: StacksTransactionReceipt| r@)
}

/// The views of a config's subscription keys.
pub open spec fn keys_of(c: &EventObserverConfig) -> Seq<EventKeyTypeView> {
    c.events_keys@.map_values(|k: EventKeyType| k@)
}

/// Whether a set of observer indices holds `x`.
pub fn contains_u16(v: &Vec<u16>, x: u16) -> (r: bool)
    ensures
        r == v@.contains(x),
{
    let mut i: usize = 0;
    while i < v.len()
        invariant
            i <= v@.len(),
            forall|j: int| 0 <= j < i ==> v@[j] != x,
        decreases v.len() - i,
    {
        if v[i] == x {
            return true;
        }
        i = i + 1;
    }
    false
}

/// Whether a row of event indices holds `x`.
pub fn contains_usize(v: &Vec<usize>, x: usize) -> (r: bool)
    ensures
        r == v@.contains(x),
{
    let mut i: usize = 0;
    while i < v.len()
        invariant
            i <= v@.len(),
            forall|j: int| 0 <= j < i ==> v@[j] != x,
        decreases v.len() - i,
    {
        if v[i] == x {
            return true;
        }
        i = i + 1;
    }
    false
}

/// Add an observer index to an interest set, once.
pub fn insert_index(v: &mut Vec<u16>, x: u16)
    ensures
        final(v)@ == (if old(v)@.contains(x) {
            old(v)@
        } else {
            old(v)@.push(x)
        }),
        forall|o: u16| final(v)@.contains(o) <==> (old(v)@.contains(o) || o == x),
{
    if !contains_u16(v, x) {
        v.push(x);
    }
    proof {
        assert forall|o: u16| final(v)@.contains(o) implies (old(v)@.contains(o) || o == x) by {
            if !old(v)@.contains(x) {
                let j = choose|j: int| 0 <= j < v@.len() && v@[j] == o;
                if j < old(v)@.len() {
                    assert(old(v)@[j] == o);
                }
            }
        }
        assert forall|o: u16| (old(v)@.contains(o) || o == x) implies final(v)@.contains(o) by {
            if old(v)@.contains(o) {
                let j = choose|j: int| 0 <= j < old(v)@.len() && old(v)@[j] == o;
                assert(v@[j] == o);
            } else {
                if !old(v)@.contains(x) {
                    assert(v@[old(v)@.len() as int] == x);
                }
            }
        }
    }
}

/// Copy a set of observer indices.
pub fn clone_u16s(v: &Vec<u16>) -> (r: Vec<u16>)
    ensures
        r@ == v@,
{
    let mut r: Vec<u16> = Vec::new();
    let mut i: usize = 0;
    while i < v.len()
        invariant
            i <= v@.len(),
            r@ =~= v@.take(i as int),
        decreases v.len() - i,
    {
        r.push(v[i]);
        i = i + 1;
    }
    proof {
        assert(v@.take(v@.len() as int) =~= v@);
    }
    r
}

/// Copy a row of event indices.
pub fn clone_usizes(v: &Vec<usize>) -> (r: Vec<usize>)
    ensures
        r@ == v@,
{
    let mut r: Vec<usize> = Vec::new();
    let mut i: usize = 0;
    while i < v.len()
        invariant
            i <= v@.len(),
            r@ =~= v@.take(i as int),
        decreases v.len() - i,
    {
        r.push(v[i]);
        i = i + 1;
    }
    proof {
        assert(v@.take(v@.len() as int) =~= v@);
    }
    r
}

/// Find the entry of a contract key in the keyed interest list.
fn find_contract_entry(entries: &Vec<(ContractEventKey, Vec<u16>)>, key: &ContractEventKey) -> (r:
    Option<usize>)
    ensures
        r is Some ==> (r->Some_0 as int) < entries@.len() && entries@[r->Some_0 as int].0@ == key@,
        r is None ==> forall|j: int| 0 <= j < entries@.len() ==> (#[trigger] entries@[j]).0@ != key@,
{
    let mut i: usize = 0;
    while i < entries.len()
        invariant
            i <= entries@.len(),
            forall|j: int| 0 <= j < i ==> (#[trigger] entries@[j]).0@ != key@,
        decreases entries.len() - i,
    {
        if contract_key_eq(&entries[i].0, key) {
            return Some(i);
        }
        i = i + 1;
    }
    None
}

/// Find the entry of an asset identifier in the keyed interest list.
fn find_asset_entry(entries: &Vec<(AssetIdentifier, Vec<u16>)>, key: &AssetIdentifier) -> (r:
    Option<usize>)
    ensures
        r is Some ==> (r->Some_0 as int) < entries@.len() && entries@[r->Some_0 as int].0@ == key@,
        r is None ==> forall|j: int| 0 <= j < entries@.len() ==> (#[trigger] entries@[j]).0@ != key@,
{
    let mut i: usize = 0;
    while i < entries.len()
        invariant
            i <= entries@.len(),
            forall|j: int| 0 <= j < i ==> (#[trigger] entries@[j]).0@ != key@,
        decreases entries.len() - i,
    {
        if asset_id_eq(&entries[i].0, key) {
            return Some(i);
        }
        i = i + 1;
    }
    None
}

impl EventDispatcher {
    pub fn new() -> (r: EventDispatcher)
        ensures
            r@.observers.len() == 0,
            r@.contract_events.len() == 0,
            r@.assets.len() == 0,
            r@.burn_blocks.len() == 0,
            r@.mempool.len() == 0,
            r@.microblocks.len() == 0,
            r@.stx.len() == 0,
            r@.any_event.len() == 0,
            r@.miner.len() == 0,
            r@.mined_microblocks.len() == 0,
            r@.stackerdb.len() == 0,
            r@.block_proposal.len() == 0,
    {
        let r = EventDispatcher {
            registered_observers: Vec::new(),
            contract_events_observers_lookup: Vec::new(),
            assets_observers_lookup: Vec::new(),
            burn_block_observers_lookup: Vec::new(),
            mempool_observers_lookup: Vec::new(),
            microblock_observers_lookup: Vec::new(),
            stx_observers_lookup: Vec::new(),
            any_event_observers_lookup: Vec::new(),
            miner_observers_lookup: Vec::new(),
            mined_microblocks_observers_lookup: Vec::new(),
            stackerdb_observers_lookup: Vec::new(),
            block_proposal_observers_lookup: Vec::new(),
        };
        r
    }

    /// Whether observer `o` is interested in a smart-contract event
    /// with this key.
    pub fn contract_key_interested(&self, key: &ContractEventKey, o: u16) -> (r: bool)
        ensures
            r == keyed_interest(self@.contract_events, key@, o),
    {
        let entries = &self.contract_events_observers_lookup;
        let mut i: usize = 0;
        while i < entries.len()
            invariant
                entries@ == self.contract_events_observers_lookup@,
                i <= entries@.len(),
                forall|j: int|
                    0 <= j < i ==> !((#[trigger] entries@[j]).0@ == key@ && entries@[j].1@.contains(
                        o,
                    )),
            decreases entries.len() - i,
        {
            if contract_key_eq(&entries[i].0, key) && contains_u16(&entries[i].1, o) {
                proof {
                    let ii = i as int;
                    assert(self@.contract_events[ii] == (entries@[ii].0@, entries@[ii].1@));
                }
                return true;
            }
            i = i + 1;
        }
        proof {
            assert forall|j: int|
                0 <= j < self@.contract_events.len() implies !((#[trigger] self@.contract_events[j]).0
                == key@ && self@.contract_events[j].1.contains(o)) by {
                assert(self@.contract_events[j] == (entries@[j].0@, entries@[j].1@));
            }
        }
        false
    }

    /// Whether observer `o` is interested in events of this asset.
    pub fn asset_interested(&self, asset: &AssetIdentifier, o: u16) -> (r: bool)
        ensures
            r == keyed_interest(self@.assets, asset@, o),
    {
        let entries = &self.assets_observers_lookup;
        let mut i: usize = 0;
        while i < entries.len()
            invariant
                entries@ == self.assets_observers_lookup@,
                i <= entries@.len(),
                forall|j: int|
                    0 <= j < i ==> !((#[trigger] entries@[j]).0@ == asset@ && entries@[j].1@.contains(
                        o,
                    )),
            decreases entries.len() - i,
        {
            if asset_id_eq(&entries[i].0, asset) && contains_u16(&entries[i].1, o) {
                proof {
                    assert(self@.assets[i as int] == (entries@[i as int].0@, entries@[i as int].1@));
                }
                return true;
            }
            i = i + 1;
        }
        proof {
            assert forall|j: int|
                0 <= j < self@.assets.len() implies !((#[trigger] self@.assets[j]).0 == asset@
                && self@.assets[j].1.contains(o)) by {
                assert(self@.assets[j] == (entries@[j].0@, entries@[j].1@));
            }
        }
        false
    }

    /// Give observer `idx` an interest in the contract event key,
    /// creating the key's entry when absent.
    fn add_contract_interest(&mut self, key: &ContractEventKey, idx: u16)
        ensures
            final(self)@ == (DispatcherView {
                contract_events: final(self)@.contract_events,
                ..old(self)@
            }),
            forall|k: ContractEventKeyView, o: u16|
                #[trigger] keyed_interest(final(self)@.contract_events, k, o) <==> (keyed_interest(
                    old(self)@.contract_events,
                    k,
                    o,
                ) || (o == idx && k == key@)),
    {
        let ghost olde = self@.contract_events;
        match find_contract_entry(&self.contract_events_observers_lookup, key) {
            Some(j) => {
                let k2 = clone_contract_key(&self.contract_events_observers_lookup[j].0);
                let mut set = clone_u16s(&self.contract_events_observers_lookup[j].1);
                insert_index(&mut set, idx);
                let ghost setv = set@;
                self.contract_events_observers_lookup.set(j, (k2, set));
                proof {
                    let ji = j as int;
                    let newe = self@.contract_events;
                    assert(newe =~= olde.update(ji, (key@, setv)));
                    assert forall|k: ContractEventKeyView, o: u16| #[trigger] keyed_interest(
                        newe,
                        k,
                        o,
                    ) implies (keyed_interest(olde, k, o) || (o == idx && k == key@)) by {
                        let jj = choose|jj: int|
                            0 <= jj < newe.len() && (#[trigger] newe[jj]).0 == k
                                && newe[jj].1.contains(o);
                        if jj == ji {
                            if olde[ji].1.contains(o) {
                                assert((#[trigger] olde[ji]).0 == k && olde[ji].1.contains(o));
                            }
                        } else {
                            assert((#[trigger] olde[jj]).0 == k && olde[jj].1.contains(o));
                        }
                    }
                    assert forall|k: ContractEventKeyView, o: u16| (keyed_interest(olde, k, o) || (
                    o == idx && k == key@)) implies #[trigger] keyed_interest(newe, k, o) by {
                        if keyed_interest(olde, k, o) {
                            let jj = choose|jj: int|
                                0 <= jj < olde.len() && (#[trigger] olde[jj]).0 == k
                                    && olde[jj].1.contains(o);
                            if jj == ji {
                                assert((#[trigger] newe[ji]).0 == k && newe[ji].1.contains(o));
                            } else {
                                assert((#[trigger] newe[jj]).0 == k && newe[jj].1.contains(o));
                            }
                        } else {
                            assert((#[trigger] newe[ji]).0 == k && newe[ji].1.contains(o));
                        }
                    }
                    assert(self@ =~= (DispatcherView {
                        contract_events: self@.contract_events,
                        ..old(self)@
                    }));
                }
            },
            None => {
                let mut set: Vec<u16> = Vec::new();
                set.push(idx);
                let ghost setv = set@;
                self.contract_events_observers_lookup.push((clone_contract_key(key), set));
                proof {
                    let newe = self@.contract_events;
                    let ji = olde.len() as int;
                    assert(newe =~= olde.push((key@, setv)));
                    assert(setv =~= seq![idx]);
                    assert forall|k: ContractEventKeyView, o: u16| #[trigger] keyed_interest(
                        newe,
                        k,
                        o,
                    ) implies (keyed_interest(olde, k, o) || (o == idx && k == key@)) by {
                        let jj = choose|jj: int|
                            0 <= jj < newe.len() && (#[trigger] newe[jj]).0 == k
                                && newe[jj].1.contains(o);
                        if jj < ji {
                            assert((#[trigger] olde[jj]).0 == k && olde[jj].1.contains(o));
                        } else {
                            assert(setv[0] == idx);
                        }
                    }
                    assert forall|k: ContractEventKeyView, o: u16| (keyed_interest(olde, k, o) || (
                    o == idx && k == key@)) implies #[trigger] keyed_interest(newe, k, o) by {
                        if keyed_interest(olde, k, o) {
                            let jj = choose|jj: int|
                                0 <= jj < olde.len() && (#[trigger] olde[jj]).0 == k
                                    && olde[jj].1.contains(o);
                            assert((#[trigger] newe[jj]).0 == k && newe[jj].1.contains(o));
                        } else {
                            assert(setv[0] == idx);
                            assert((#[trigger] newe[ji]).0 == k && newe[ji].1.contains(o));
                        }
                    }
                    assert(self@ =~= (DispatcherView {
                        contract_events: self@.contract_events,
                        ..old(self)@
                    }));
                }
            },
        }
    }

    /// Give observer `idx` an interest in the asset, creating the
    /// asset's entry when absent.
    fn add_asset_interest(&mut self, key: &AssetIdentifier, idx: u16)
        ensures
            final(self)@ == (DispatcherView { assets: final(self)@.assets, ..old(self)@ }),
            forall|a: AssetIdView, o: u16|
                #[trigger] keyed_interest(final(self)@.assets, a, o) <==> (keyed_interest(
                    old(self)@.assets,
                    a,
                    o,
                ) || (o == idx && a == key@)),
    {
        let ghost olde = self@.assets;
        match find_asset_entry(&self.assets_observers_lookup, key) {
            Some(j) => {
                let k2 = crate::events::clone_asset_id(&self.assets_observers_lookup[j].0);
                let mut set = clone_u16s(&self.assets_observers_lookup[j].1);
                insert_index(&mut set, idx);
                let ghost setv = set@;
                self.assets_observers_lookup.set(j, (k2, set));
                proof {
                    let ji = j as int;
                    let newe = self@.assets;
                    assert(newe =~= olde.update(ji, (key@, setv)));
                    assert forall|a: AssetIdView, o: u16| #[trigger] keyed_interest(
                        newe,
                        a,
                        o,
                    ) implies (keyed_interest(olde, a, o) || (o == idx && a == key@)) by {
                        let jj = choose|jj: int|
                            0 <= jj < newe.len() && (#[trigger] newe[jj]).0 == a
                                && newe[jj].1.contains(o);
                        if jj == ji {
                            if olde[ji].1.contains(o) {
                                assert((#[trigger] olde[ji]).0 == a && olde[ji].1.contains(o));
                            }
                        } else {
                            assert((#[trigger] olde[jj]).0 == a && olde[jj].1.contains(o));
                        }
                    }
                    assert forall|a: AssetIdView, o: u16| (keyed_interest(olde, a, o) || (o == idx
                        && a == key@)) implies #[trigger] keyed_interest(newe, a, o) by {
                        if keyed_interest(olde, a, o) {
                            let jj = choose|jj: int|
                                0 <= jj < olde.len() && (#[trigger] olde[jj]).0 == a
                                    && olde[jj].1.contains(o);
                            if jj == ji {
                                assert((#[trigger] newe[ji]).0 == a && newe[ji].1.contains(o));
                            } else {
                                assert((#[trigger] newe[jj]).0 == a && newe[jj].1.contains(o));
                            }
                        } else {
                            assert((#[trigger] newe[ji]).0 == a && newe[ji].1.contains(o));
                        }
                    }
                    assert(self@ =~= (DispatcherView { assets: self@.assets, ..old(self)@ }));
                }
            },
            None => {
                let mut set: Vec<u16> = Vec::new();
                set.push(idx);
                let ghost setv = set@;
                self.assets_observers_lookup.push((crate::events::clone_asset_id(key), set));
                proof {
                    let newe = self@.assets;
                    let ji = olde.len() as int;
                    assert(newe =~= olde.push((key@, setv)));
                    assert(setv =~= seq![idx]);
                    assert forall|a: AssetIdView, o: u16| #[trigger] keyed_interest(
                        newe,
                        a,
                        o,
                    ) implies (keyed_interest(olde, a, o) || (o == idx && a == key@)) by {
                        let jj = choose|jj: int|
                            0 <= jj < newe.len() && (#[trigger] newe[jj]).0 == a
                                && newe[jj].1.contains(o);
                        if jj < ji {
                            assert((#[trigger] olde[jj]).0 == a && olde[jj].1.contains(o));
                        } else {
                            assert(setv[0] == idx);
                        }
                    }
                    assert forall|a: AssetIdView, o: u16| (keyed_interest(olde, a, o) || (o == idx
                        && a == key@)) implies #[trigger] keyed_interest(newe, a, o) by {
                        if keyed_interest(olde, a, o) {
                            let jj = choose|jj: int|
                                0 <= jj < olde.len() && (#[trigger] olde[jj]).0 == a
                                    && olde[jj].1.contains(o);
                            assert((#[trigger] newe[jj]).0 == a && newe[jj].1.contains(o));
                        } else {
                            assert(setv[0] == idx);
                            assert((#[trigger] newe[ji]).0 == a && newe[ji].1.contains(o));
                        }
                    }
                    assert(self@ =~= (DispatcherView { assets: self@.assets, ..old(self)@ }));
                }
            },
        }
    }

    /// Register one observer: append it to the list and add its index,
    /// the next dense one, to the interest set of every topic its
    /// configuration subscribes to.  Observers are never removed or
    /// reassigned.
    pub fn register_observer(&mut self, conf: &EventObserverConfig)
        requires
            old(self)@.observers.len() < 0x10000,
        ensures
            final(self)@.observers == old(self)@.observers.push(conf.endpoint@),
            registration_effect(
                old(self)@,
                final(self)@,
                keys_of(conf),
                old(self)@.observers.len() as u16,
            ),
    {
        let observer_index: u16 = self.registered_observers.len() as u16;
        let ghost keys = keys_of(conf);
        let ghost d0 = self@;
        let mut i: usize = 0;
        proof {
            assert(registration_effect(d0, self@, keys.take(0), observer_index));
        }
        while i < conf.events_keys.len()
            invariant
                observer_index as int == d0.observers.len(),
                d0.observers.len() < 0x10000,
                keys == keys_of(conf),
                i <= keys.len(),
                keys.len() == conf.events_keys@.len(),
                self@.observers == d0.observers,
                registration_effect(d0, self@, keys.take(i as int), observer_index),
            decreases conf.events_keys@.len() - i,
        {
            let ghost dpre = self@;
            match &conf.events_keys[i] {
                EventKeyType::SmartContractEvent(event_key) => {
                    self.add_contract_interest(event_key, observer_index);
                    proof {
                        assert(keys[i as int] == EventKeyTypeView::SmartContractEvent(event_key@));
                        assert(registration_step(dpre, self@, keys[i as int], observer_index));
                    }
                },
                EventKeyType::BurnchainBlocks => {
                    insert_index(&mut self.burn_block_observers_lookup, observer_index);
                    proof {
                        assert(keys[i as int] == EventKeyTypeView::BurnchainBlocks);
                        assert(self@ =~= (DispatcherView { burn_blocks: self@.burn_blocks, ..dpre }));
                        assert(registration_step(dpre, self@, keys[i as int], observer_index));
                    }
                },
                EventKeyType::MemPoolTransactions => {
                    insert_index(&mut self.mempool_observers_lookup, observer_index);
                    proof {
                        assert(keys[i as int] == EventKeyTypeView::MemPoolTransactions);
                        assert(self@ =~= (DispatcherView { mempool: self@.mempool, ..dpre }));
                        assert(registration_step(dpre, self@, keys[i as int], observer_index));
                    }
                },
                EventKeyType::Microblocks => {
                    insert_index(&mut self.microblock_observers_lookup, observer_index);
                    proof {
                        assert(keys[i as int] == EventKeyTypeView::Microblocks);
                        assert(self@ =~= (DispatcherView {
                            microblocks: self@.microblocks,
                            ..dpre
                        }));
                        assert(registration_step(dpre, self@, keys[i as int], observer_index));
                    }
                },
                EventKeyType::STXEvent => {
                    insert_index(&mut self.stx_observers_lookup, observer_index);
                    proof {
                        assert(keys[i as int] == EventKeyTypeView::STXEvent);
                        assert(self@ =~= (DispatcherView { stx: self@.stx, ..dpre }));
                        assert(registration_step(dpre, self@, keys[i as int], observer_index));
                    }
                },
                EventKeyType::AssetEvent(event_key) => {
                    self.add_asset_interest(event_key, observer_index);
                    proof {
                        assert(keys[i as int] == EventKeyTypeView::AssetEvent(event_key@));
                        assert(registration_step(dpre, self@, keys[i as int], observer_index));
                    }
                },
                EventKeyType::AnyEvent => {
                    insert_index(&mut self.any_event_observers_lookup, observer_index);
                    proof {
                        assert(keys[i as int] == EventKeyTypeView::AnyEvent);
                        assert(self@ =~= (DispatcherView { any_event: self@.any_event, ..dpre }));
                        assert(registration_step(dpre, self@, keys[i as int], observer_index));
                    }
                },
                EventKeyType::MinedBlocks => {
                    insert_index(&mut self.miner_observers_lookup, observer_index);
                    proof {
                        assert(keys[i as int] == EventKeyTypeView::MinedBlocks);
                        assert(self@ =~= (DispatcherView { miner: self@.miner, ..dpre }));
                        assert(registration_step(dpre, self@, keys[i as int], observer_index));
                    }
                },
                EventKeyType::MinedMicroblocks => {
                    insert_index(&mut self.mined_microblocks_observers_lookup, observer_index);
                    proof {
                        assert(keys[i as int] == EventKeyTypeView::MinedMicroblocks);
                        assert(self@ =~= (DispatcherView {
                            mined_microblocks: self@.mined_microblocks,
                            ..dpre
                        }));
                        assert(registration_step(dpre, self@, keys[i as int], observer_index));
                    }
                },
                EventKeyType::StackerDBChunks => {
                    insert_index(&mut self.stackerdb_observers_lookup, observer_index);
                    proof {
                        assert(keys[i as int] == EventKeyTypeView::StackerDBChunks);
                        assert(self@ =~= (DispatcherView { stackerdb: self@.stackerdb, ..dpre }));
                        assert(registration_step(dpre, self@, keys[i as int], observer_index));
                    }
                },
                EventKeyType::BlockProposal => {
                    insert_index(&mut self.block_proposal_observers_lookup, observer_index);
                    proof {
                        assert(keys[i as int] == EventKeyTypeView::BlockProposal);
                        assert(self@ =~= (DispatcherView {
                            block_proposal: self@.block_proposal,
                            ..dpre
                        }));
                        assert(registration_step(dpre, self@, keys[i as int], observer_index));
                    }
                },
            }
            proof {
                assert(keys.take(i + 1) =~= keys.take(i as int).push(keys[i as int]));
                lemma_registration_step(
                    d0,
                    dpre,
                    self@,
                    keys.take(i as int),
                    keys[i as int],
                    observer_index,
                );
            }
            i = i + 1;
        }
        proof {
            assert(keys.take(keys.len() as int) =~= keys);
        }
        let ghost dloop = self@;
        self.registered_observers.push(EventObserver { endpoint: conf.endpoint.clone() });
        proof {
            assert(self@.observers =~= d0.observers.push(conf.endpoint@));
            assert(self@ =~= (DispatcherView { observers: self@.observers, ..dloop }));
            lemma_registration_observers_irrelevant(d0, dloop, self@, keys, observer_index);
        }
    }

    /// The observers, in index order, whose index stands in the given
    /// interest set — or, when `include_any` is set, in the any-event
    /// set.
    pub fn filter_observers(&self, lookup: &Vec<u16>, include_any: bool) -> (r: Vec<u16>)
        requires
            self@.observers.len() <= 0x10000,
        ensures
            forall|a: int, b: int| 0 <= a < b < r@.len() ==> r@[a] < r@[b],
            forall|j: int|
                0 <= j < r@.len() ==> ((#[trigger] r@[j]) as int) < self@.observers.len()
                    && observer_selected(self@, lookup@, include_any, r@[j]),
            forall|o: u16|
                (o as int) < self@.observers.len() && observer_selected(
                    self@,
                    lookup@,
                    include_any,
                    o,
                ) ==> #[trigger] r@.contains(o),
    {
        let mut r: Vec<u16> = Vec::new();
        let n: usize = self.registered_observers.len();
        let mut ob: usize = 0;
        while ob < n
            invariant
                n == self@.observers.len(),
                n <= 0x10000,
                ob <= n,
                forall|a: int, b: int| 0 <= a < b < r@.len() ==> r@[a] < r@[b],
                forall|j: int|
                    0 <= j < r@.len() ==> ((#[trigger] r@[j]) as int) < ob && observer_selected(
                        self@,
                        lookup@,
                        include_any,
                        r@[j],
                    ),
                forall|o: u16|
                    (o as int) < ob && observer_selected(self@, lookup@, include_any, o)
                        ==> #[trigger] r@.contains(o),
            decreases n - ob,
        {
            let o16: u16 = ob as u16;
            let ghost r_pre = r@;
            if contains_u16(lookup, o16) || (include_any && contains_u16(
                &self.any_event_observers_lookup,
                o16,
            )) {
                r.push(o16);
            }
            proof {
                assert forall|o: u16|
                    (o as int) < ob + 1 && observer_selected(
                        self@,
                        lookup@,
                        include_any,
                        o,
                    ) implies #[trigger] r@.contains(o) by {
                    if (o as int) < ob {
                        assert(r_pre.contains(o));
                        let j = choose|j: int| 0 <= j < r_pre.len() && #[trigger] r_pre[j] == o;
                        assert(r@[j] == o);
                    } else {
                        assert(o == o16);
                        assert(r@[r@.len() - 1] == o16);
                    }
                }
            }
            ob = ob + 1;
        }
        r
    }

    /// Add the event's index to the row of every observer subscribed to
    /// the asset.
    pub fn update_dispatch_matrix_if_observer_subscribed(
        &self,
        asset_identifier: &AssetIdentifier,
        event_index: usize,
        dispatch_matrix: &mut Vec<Vec<usize>>,
    )
        ensures
            final(dispatch_matrix)@.len() == old(dispatch_matrix)@.len(),
            forall|o: int|
                0 <= o < old(dispatch_matrix)@.len() ==> (#[trigger] final(dispatch_matrix)@[o])@
                    == row_insert(
                    old(dispatch_matrix)@[o]@,
                    event_index,
                    keyed_interest(self@.assets, asset_identifier@, o as u16),
                ),
    {
        let n: usize = dispatch_matrix.len();
        let mut o: usize = 0;
        while o < n
            invariant
                n == dispatch_matrix@.len(),
                n == old(dispatch_matrix)@.len(),
                o <= n,
                forall|oo: int|
                    0 <= oo < o ==> (#[trigger] dispatch_matrix@[oo])@ == row_insert(
                        old(dispatch_matrix)@[oo]@,
                        event_index,
                        keyed_interest(self@.assets, asset_identifier@, oo as u16),
                    ),
                forall|oo: int|
                    o <= oo < n ==> (#[trigger] dispatch_matrix@[oo])@ == old(
                        dispatch_matrix,
                    )@[oo]@,
            decreases n - o,
        {
            if self.asset_interested(asset_identifier, o as u16) {
                if !contains_usize(&dispatch_matrix[o], event_index) {
                    let mut row = clone_usizes(&dispatch_matrix[o]);
                    row.push(event_index);
                    dispatch_matrix.set(o, row);
                }
            }
            o = o + 1;
        }
    }

    /// Flatten a batch of receipts into one ordered event list and
    /// build the dispatch matrix over it: one row per observer, holding
    /// in increasing order exactly the indices of the events that
    /// dispatch to it.  Any-event observers receive the full batch.
    pub fn create_dispatch_matrix_and_event_vector(
        &self,
        receipts: &Vec<StacksTransactionReceipt>,
    ) -> (r: (Vec<Vec<usize>>, Vec<EventRecord>))
        requires
            self@.observers.len() <= 0x10000,
        ensures
            record_views(r.1@) == flatten_receipts(receipt_views(receipts@)),
            r.0@.len() == self@.observers.len(),
            forall|o: int|
                0 <= o < r.0@.len() ==> row_filtered(
                    self@,
                    record_views(r.1@),
                    o as u16,
                    (#[trigger] r.0@[o])@,
                ),
    {
        let m: usize = self.registered_observers.len();
        let mut dispatch_matrix: Vec<Vec<usize>> = Vec::new();
        let mut events: Vec<EventRecord> = Vec::new();
        while dispatch_matrix.len() < m
            invariant
                dispatch_matrix@.len() <= m,
                forall|o: int|
                    0 <= o < dispatch_matrix@.len() ==> (#[trigger] dispatch_matrix@[o])@
                        == Seq::<usize>::empty(),
            decreases m - dispatch_matrix.len(),
        {
            let row: Vec<usize> = Vec::new();
            dispatch_matrix.push(row);
        }
        let ghost rvs = receipt_views(receipts@);
        proof {
            assert(rvs.take(0) =~= Seq::<ReceiptView>::empty());
            assert(record_views(events@) =~= flatten_receipts(rvs.take(0)));
        }
        let mut ri: usize = 0;
        while ri < receipts.len()
            invariant
                m == self@.observers.len(),
                m <= 0x10000,
                rvs == receipt_views(receipts@),
                ri <= rvs.len(),
                rvs.len() == receipts@.len(),
                dispatch_matrix@.len() == m,
                record_views(events@) == flatten_receipts(rvs.take(ri as int)),
                forall|o: int|
                    0 <= o < m ==> row_filtered(
                        self@,
                        record_views(events@),
                        o as u16,
                        (#[trigger] dispatch_matrix@[o])@,
                    ),
            decreases receipts@.len() - ri,
        {
            let receipt = &receipts[ri];
            let ghost rv = rvs[ri as int];
            let mut ei: usize = 0;
            proof {
                assert(receipt_records(rv).take(0) =~= Seq::<EventRecordView>::empty());
                assert(record_views(events@) + receipt_records(rv).take(0) =~= record_views(
                    events@,
                ));
            }
            while ei < receipt.events.len()
                invariant
                    m == self@.observers.len(),
                    m <= 0x10000,
                    rvs == receipt_views(receipts@),
                    ri < rvs.len(),
                    rvs.len() == receipts@.len(),
                    rv == rvs[ri as int],
                    receipt == receipts@[ri as int],
                    rv == receipt@,
                    ei <= receipt.events@.len(),
                    receipt_records(rv).len() == receipt.events@.len(),
                    dispatch_matrix@.len() == m,
                    record_views(events@) == flatten_receipts(rvs.take(ri as int))
                        + receipt_records(rv).take(ei as int),
                    forall|o: int|
                        0 <= o < m ==> row_filtered(
                            self@,
                            record_views(events@),
                            o as u16,
                            (#[trigger] dispatch_matrix@[o])@,
                        ),
                decreases receipt.events@.len() - ei,
            {
                let event = &receipt.events[ei];
                let i: usize = events.len();
                let ghost events_pre = record_views(events@);
                let ghost new_rec = EventRecordView {
                    committed: !rv.post_condition_aborted,
                    txid: rv.txid,
                    event: rv.events[ei as int],
                };
                events.push(
                    EventRecord {
                        committed: !receipt.post_condition_aborted,
                        txid: crate::encoding::clone_bytes(&receipt.txid),
                        event: clone_event(event),
                    },
                );
                proof {
                    assert(record_views(events@) =~= events_pre.push(new_rec));
                    assert(receipt_records(rv).take(ei + 1) =~= receipt_records(rv).take(
                        ei as int,
                    ).push(new_rec));
                    assert(record_views(events@) =~= flatten_receipts(rvs.take(ri as int))
                        + receipt_records(rv).take(ei + 1));
                }
                let mut o: usize = 0;
                while o < m
                    invariant
                        m == self@.observers.len(),
                        m <= 0x10000,
                        o <= m,
                        dispatch_matrix@.len() == m,
                        i == events_pre.len(),
                        record_views(events@) == events_pre.push(new_rec),
                        new_rec.event == event@,
                        event == receipts@[ri as int].events@[ei as int],
                        forall|oo: int|
                            0 <= oo < o ==> row_filtered(
                                self@,
                                record_views(events@),
                                oo as u16,
                                (#[trigger] dispatch_matrix@[oo])@,
                            ),
                        forall|oo: int|
                            o <= oo < m ==> row_filtered(
                                self@,
                                events_pre,
                                oo as u16,
                                (#[trigger] dispatch_matrix@[oo])@,
                            ),
                    decreases m - o,
                {
                    let ghost row_pre = dispatch_matrix@[o as int]@;
                    if self.event_dispatches(event, o as u16) {
                        let mut row = clone_usizes(&dispatch_matrix[o]);
                        row.push(i);
                        dispatch_matrix.set(o, row);
                    }
                    proof {
                        let evs = record_views(events@);
                        let ou = o as u16;
                        let row_now = dispatch_matrix@[o as int]@;
                        assert(evs.len() == i + 1);
                        assert(evs[i as int] == new_rec);
                        assert forall|jj: int| 0 <= jj < i implies evs[jj] == events_pre[jj] by {}
                        if dispatches_to(self@, new_rec.event, ou) {
                            assert(row_now =~= row_pre.push(i));
                            assert forall|a: int, b: int|
                                0 <= a < b < row_now.len() implies row_now[a] < row_now[b] by {
                                if b < row_pre.len() {
                                } else {
                                    if a < row_pre.len() {
                                        assert(row_pre[a] < i);
                                    }
                                }
                            }
                            assert forall|idx: usize|
                                (idx as int) < evs.len() && dispatches_to(
                                    self@,
                                    evs[idx as int].event,
                                    ou,
                                ) implies #[trigger] row_now.contains(idx) by {
                                if (idx as int) < i {
                                    assert(row_pre.contains(idx));
                                    let j = choose|j: int|
                                        0 <= j < row_pre.len() && #[trigger] row_pre[j] == idx;
                                    assert(row_now[j] == idx);
                                } else {
                                    assert(idx == i);
                                    assert(row_now[row_now.len() - 1] == i);
                                }
                            }
                            assert(row_filtered(self@, evs, ou, row_now));
                        } else {
                            assert(row_now == row_pre);
                            assert forall|idx: usize|
                                (idx as int) < evs.len() && dispatches_to(
                                    self@,
                                    evs[idx as int].event,
                                    ou,
                                ) implies #[trigger] row_now.contains(idx) by {
                                if (idx as int) < i {
                                    assert(row_pre.contains(idx));
                                } else {
                                    assert(evs[idx as int] == new_rec);
                                }
                            }
                            assert(row_filtered(self@, evs, ou, row_now));
                        }
                    }
                    o = o + 1;
                }
                ei = ei + 1;
            }
            proof {
                assert(receipt_records(rv).take(receipt_records(rv).len() as int)
                    =~= receipt_records(rv));
                crate::events::lemma_flatten_snoc(rvs, ri as int);
            }
            ri = ri + 1;
        }
        proof {
            assert(rvs.take(rvs.len() as int) =~= rvs);
        }
        (dispatch_matrix, events)
    }

    /// Whether observer `o` receives this event.
    pub fn event_dispatches(&self, event: &StacksTransactionEvent, o: u16) -> (r: bool)
        ensures
            r == dispatches_to(self@, event@, o),
    {
        if contains_u16(&self.any_event_observers_lookup, o) {
            return true;
        }
        match event {
            StacksTransactionEvent::SmartContractEvent { key } => {
                self.contract_key_interested(key, o)
            },
            StacksTransactionEvent::StxTransferEvent => contains_u16(
                &self.stx_observers_lookup,
                o,
            ),
            StacksTransactionEvent::StxMintEvent => contains_u16(&self.stx_observers_lookup, o),
            StacksTransactionEvent::StxBurnEvent => contains_u16(&self.stx_observers_lookup, o),
            StacksTransactionEvent::StxLockEvent => contains_u16(&self.stx_observers_lookup, o),
            StacksTransactionEvent::NftTransferEvent { asset_identifier } => {
                self.asset_interested(asset_identifier, o)
            },
            StacksTransactionEvent::NftMintEvent { asset_identifier } => {
                self.asset_interested(asset_identifier, o)
            },
            StacksTransactionEvent::NftBurnEvent { asset_identifier } => {
                self.asset_interested(asset_identifier, o)
            },
            StacksTransactionEvent::FtTransferEvent { asset_identifier } => {
                self.asset_interested(asset_identifier, o)
            },
            StacksTransactionEvent::FtMintEvent { asset_identifier } => {
                self.asset_interested(asset_identifier, o)
            },
            StacksTransactionEvent::FtBurnEvent { asset_identifier } => {
                self.asset_interested(asset_identifier, o)
            },
        }
    }
}

/// A topic an observer can be subscribed to exclusively, for stating
/// what such an observer receives.
#[verifier::ext_equal]
pub enum TopicSelector {
    Contract(ContractEventKeyView),
    Asset(AssetIdView),
    Stx,
}

/// Whether an event belongs to the selected topic.  No event belongs to
/// more than one non-any topic.
pub open spec fn event_matches_topic(ev: EventView, t: TopicSelector) -> bool {
    match t {
        TopicSelector::Contract(k) => ev == EventView::SmartContractEvent { key: k },
        TopicSelector::Asset(a) => {
            ||| ev == EventView::NftTransferEvent { asset_identifier: a }
            ||| ev == EventView::NftMintEvent { asset_identifier: a }
            ||| ev == EventView::NftBurnEvent { asset_identifier: a }
            ||| ev == EventView::FtTransferEvent { asset_identifier: a }
            ||| ev == EventView::FtMintEvent { asset_identifier: a }
            ||| ev == EventView::FtBurnEvent { asset_identifier: a }
        },
        TopicSelector::Stx => {
            ||| ev == EventView::StxTransferEvent
            ||| ev == EventView::StxMintEvent
            ||| ev == EventView::StxBurnEvent
            ||| ev == EventView::StxLockEvent
        },
    }
}

/// Whether observer `o` subscribes to topic `t` and to nothing else:
/// not to the any-event stream, and to no other keyed or flat event
/// topic.
pub open spec fn subscribed_only(d: DispatcherView, o: u16, t: TopicSelector) -> bool {
    &&& !d.any_event.contains(o)
    &&& (d.stx.contains(o) <==> t == TopicSelector::Stx)
    &&& forall|k: ContractEventKeyView|
        #[trigger] keyed_interest(d.contract_events, k, o) <==> t == TopicSelector::Contract(k)
    &&& forall|a: AssetIdView|
        #[trigger] keyed_interest(d.assets, a, o) <==> t == TopicSelector::Asset(a)
}

/// A strictly increasing sequence of values below `n` that contains
/// every value below `n` is exactly the sequence 0, 1, …, n-1.
pub proof fn lemma_increasing_complete_identity(row: Seq<usize>, n: int)
    requires
        0 <= n <= usize::MAX,
        forall|a: int, b: int| 0 <= a < b < row.len() ==> row[a] < row[b],
        forall|j: int| 0 <= j < row.len() ==> ((#[trigger] row[j]) as int) < n,
        forall|i: usize| (i as int) < n ==> #[trigger] row.contains(i),
    ensures
        row.len() == n,
        forall|j: int| 0 <= j < row.len() ==> ((#[trigger] row[j]) as int) == j,
    decreases n,
{
    if n == 0 {
        if row.len() > 0 {
            assert((row[0] as int) < 0);
        }
        assert(row.len() == 0);
    } else {
        let top = (n - 1) as usize;
        assert(row.contains(top));
        let p = choose|p: int| 0 <= p < row.len() && #[trigger] row[p] == top;
        assert(p == row.len() - 1) by {
            if p < row.len() - 1 {
                assert(row[p] < row[row.len() - 1]);
            }
        }
        let front = row.drop_last();
        assert forall|j: int| 0 <= j < front.len() implies ((#[trigger] front[j]) as int) < n
            - 1 by {
            assert(front[j] == row[j]);
            assert(row[j] < row[row.len() - 1]);
        }
        assert forall|i: usize| (i as int) < n - 1 implies #[trigger] front.contains(i) by {
            assert(row.contains(i));
            let q = choose|q: int| 0 <= q < row.len() && #[trigger] row[q] == i;
            assert(q < row.len() - 1) by {
                if q == row.len() - 1 {
                    assert(row[q] == top);
                }
            }
            assert(front[q] == i);
        }
        lemma_increasing_complete_identity(front, n - 1);
        assert(row.len() == n);
        assert forall|j: int| 0 <= j < row.len() implies ((#[trigger] row[j]) as int) == j by {
            if j < row.len() - 1 {
                assert(front[j] == row[j]);
            }
        }
    }
}

/// Dispatch completeness: for any batch of events, an observer
/// subscribed to the any-event stream receives exactly the full index
/// range of the batch, in order.
pub proof fn lemma_dispatch_completeness(
    d: DispatcherView,
    events: Seq<EventRecordView>,
    o: u16,
    row: Seq<usize>,
)
    requires
        row_filtered(d, events, o, row),
        d.any_event.contains(o),
        events.len() <= usize::MAX,
    ensures
        forall|i: usize| #[trigger] row.contains(i) <==> (i as int) < events.len(),
        row.len() == events.len(),
        forall|j: int| 0 <= j < row.len() ==> ((#[trigger] row[j]) as int) == j,
{
    assert forall|i: usize| #[trigger] row.contains(i) implies (i as int) < events.len() by {
        let j = choose|j: int| 0 <= j < row.len() && #[trigger] row[j] == i;
    }
    assert forall|i: usize| (i as int) < events.len() implies #[trigger] row.contains(i) by {
        assert(dispatches_to(d, events[i as int].event, o));
    }
    lemma_increasing_complete_identity(row, events.len() as int);
}

/// Dispatch exclusivity: an observer subscribed only to topic `t`
/// receives exactly the indices of the events that belong to `t`.
pub proof fn lemma_dispatch_exclusivity(
    d: DispatcherView,
    events: Seq<EventRecordView>,
    o: u16,
    t: TopicSelector,
    row: Seq<usize>,
)
    requires
        row_filtered(d, events, o, row),
        subscribed_only(d, o, t),
    ensures
        forall|i: usize|
            #[trigger] row.contains(i) <==> ((i as int) < events.len() && event_matches_topic(
                events[i as int].event,
                t,
            )),
{
    assert forall|i: usize|
        ((i as int) < events.len() && event_matches_topic(
            events[i as int].event,
            t,
        )) implies #[trigger] row.contains(i) by {
        assert(dispatches_to(d, events[i as int].event, o));
    }
    assert forall|i: usize| #[trigger] row.contains(i) implies ((i as int) < events.len()
        && event_matches_topic(events[i as int].event, t)) by {
        let j = choose|j: int| 0 <= j < row.len() && #[trigger] row[j] == i;
        assert(dispatches_to(d, events[i as int].event, o));
        assert(event_topic_interest(d, events[i as int].event, o));
    }
}

} // verus!
