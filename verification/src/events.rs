//! The data model of chain events as the dispatcher sees them: contract
//! and asset identifiers, the topic-discriminated event record, receipts
//! that group events per transaction, and observer subscription keys.

use vstd::prelude::*;

use crate::encoding::{bytes_eq, clone_bytes};

verus! {

/// Mathematical image of a contract identifier.
#[verifier::ext_equal]
pub struct ContractIdView {
    pub boot: bool,
    pub issuer: Seq<u8>,
    pub name: Seq<u8>,
}

/// A contract identifier: the publishing principal and the contract
/// name, with a flag marking the boot address as issuer.
pub struct QualifiedContractIdentifier {
    /// Whether the issuer is the boot address.
    pub boot: bool,
    /// The issuing principal's address.
    pub issuer: Vec<u8>,
    /// The contract's name.
    pub name: Vec<u8>,
}

impl View for QualifiedContractIdentifier {
    type V = ContractIdView;

    open spec fn view(&self) -> ContractIdView {
        ContractIdView { boot: self.boot, issuer: self.issuer@, name: self.name@ }
    }
}

impl QualifiedContractIdentifier {
    /// Whether this contract was published by the boot address.
    pub fn is_boot(&self) -> (r: bool)
        ensures
            r == self@.boot,
    {
        self.boot
    }
}

/// Copy a contract identifier.
pub fn clone_contract_id(c: &QualifiedContractIdentifier) -> (r: QualifiedContractIdentifier)
    ensures
        r@ == c@,
{
    let r = QualifiedContractIdentifier {
        boot: c.boot,
        issuer: clone_bytes(&c.issuer),
        name: clone_bytes(&c.name),
    };
    proof {
        assert(r@ =~= c@);
    }
    r
}

/// Compare two contract identifiers for equality of contents.
pub fn contract_id_eq(a: &QualifiedContractIdentifier, b: &QualifiedContractIdentifier) -> (r:
    bool)
    ensures
        r <==> a@ == b@,
{
    let r = a.boot == b.boot && bytes_eq(&a.issuer, &b.issuer) && bytes_eq(&a.name, &b.name);
    proof {
        if r {
            assert(a@ =~= b@);
        }
    }
    r
}

/// Mathematical image of a smart-contract event key.
#[verifier::ext_equal]
pub struct ContractEventKeyView {
    pub contract: ContractIdView,
    pub event_name: Seq<u8>,
}

/// The key a smart-contract event is dispatched by: the contract plus
/// the event's name.
pub struct ContractEventKey {
    pub contract: QualifiedContractIdentifier,
    pub event_name: Vec<u8>,
}

impl View for ContractEventKey {
    type V = ContractEventKeyView;

    open spec fn view(&self) -> ContractEventKeyView {
        ContractEventKeyView { contract: self.contract@, event_name: self.event_name@ }
    }
}

/// Copy a contract event key.
pub fn clone_contract_key(k: &ContractEventKey) -> (r: ContractEventKey)
    ensures
        r@ == k@,
{
    let r = ContractEventKey {
        contract: clone_contract_id(&k.contract),
        event_name: clone_bytes(&k.event_name),
    };
    proof {
        assert(r@ =~= k@);
    }
    r
}

/// Compare two contract event keys for equality of contents.
pub fn contract_key_eq(a: &ContractEventKey, b: &ContractEventKey) -> (r: bool)
    ensures
        r <==> a@ == b@,
{
    let r = contract_id_eq(&a.contract, &b.contract) && bytes_eq(&a.event_name, &b.event_name);
    proof {
        if r {
            assert(a@ =~= b@);
        }
    }
    r
}

/// Mathematical image of a fully-qualified asset identifier.
#[verifier::ext_equal]
pub struct AssetIdView {
    pub contract: ContractIdView,
    pub asset_name: Seq<u8>,
}

/// A fully-qualified asset identifier: the defining contract plus the
/// asset's name.
pub struct AssetIdentifier {
    pub contract: QualifiedContractIdentifier,
    pub asset_name: Vec<u8>,
}

impl View for AssetIdentifier {
    type V = AssetIdView;

    open spec fn view(&self) -> AssetIdView {
        AssetIdView { contract: self.contract@, asset_name: self.asset_name@ }
    }
}

/// Copy an asset identifier.
pub fn clone_asset_id(a: &AssetIdentifier) -> (r: AssetIdentifier)
    ensures
        r@ == a@,
{
    let r = AssetIdentifier {
        contract: clone_contract_id(&a.contract),
        asset_name: clone_bytes(&a.asset_name),
    };
    proof {
        assert(r@ =~= a@);
    }
    r
}

/// Compare two asset identifiers for equality of contents.
pub fn asset_id_eq(a: &AssetIdentifier, b: &AssetIdentifier) -> (r: bool)
    ensures
        r <==> a@ == b@,
{
    let r = contract_id_eq(&a.contract, &b.contract) && bytes_eq(&a.asset_name, &b.asset_name);
    proof {
        if r {
            assert(a@ =~= b@);
        }
    }
    r
}

/// Mathematical image of an event.
#[verifier::ext_equal]
pub enum EventView {
    SmartContractEvent { key: ContractEventKeyView },
    StxTransferEvent,
    StxMintEvent,
    StxBurnEvent,
    StxLockEvent,
    NftTransferEvent { asset_identifier: AssetIdView },
    NftMintEvent { asset_identifier: AssetIdView },
    NftBurnEvent { asset_identifier: AssetIdView },
    FtTransferEvent { asset_identifier: AssetIdView },
    FtMintEvent { asset_identifier: AssetIdView },
    FtBurnEvent { asset_identifier: AssetIdView },
}

/// One chain event, tagged with the key its topic is decided by.  The
/// structured payload of an event is built elsewhere and is opaque to
/// dispatch.
pub enum StacksTransactionEvent {
    SmartContractEvent { key: ContractEventKey },
    StxTransferEvent,
    StxMintEvent,
    StxBurnEvent,
    StxLockEvent,
    NftTransferEvent { asset_identifier: AssetIdentifier },
    NftMintEvent { asset_identifier: AssetIdentifier },
    NftBurnEvent { asset_identifier: AssetIdentifier },
    FtTransferEvent { asset_identifier: AssetIdentifier },
    FtMintEvent { asset_identifier: AssetIdentifier },
    FtBurnEvent { asset_identifier: AssetIdentifier },
}

impl View for StacksTransactionEvent {
    type V = EventView;

    open spec fn view(&self) -> EventView {
        match self {
            StacksTransactionEvent::SmartContractEvent { key } => EventView::SmartContractEvent {
                key: key@,
            },
            StacksTransactionEvent::StxTransferEvent => EventView::StxTransferEvent,
            StacksTransactionEvent::StxMintEvent => EventView::StxMintEvent,
            StacksTransactionEvent::StxBurnEvent => EventView::StxBurnEvent,
            StacksTransactionEvent::StxLockEvent => EventView::StxLockEvent,
            StacksTransactionEvent::NftTransferEvent { asset_identifier } => {
                EventView::NftTransferEvent { asset_identifier: asset_identifier@ }
            },
            StacksTransactionEvent::NftMintEvent { asset_identifier } => {
                EventView::NftMintEvent { asset_identifier: asset_identifier@ }
            },
            StacksTransactionEvent::NftBurnEvent { asset_identifier } => {
                EventView::NftBurnEvent { asset_identifier: asset_identifier@ }
            },
            StacksTransactionEvent::FtTransferEvent { asset_identifier } => {
                EventView::FtTransferEvent { asset_identifier: asset_identifier@ }
            },
            StacksTransactionEvent::FtMintEvent { asset_identifier } => {
                EventView::FtMintEvent { asset_identifier: asset_identifier@ }
            },
            StacksTransactionEvent::FtBurnEvent { asset_identifier } => {
                EventView::FtBurnEvent { asset_identifier: asset_identifier@ }
            },
        }
    }
}

/// Copy an event.
pub fn clone_event(e: &StacksTransactionEvent) -> (r: StacksTransactionEvent)
    ensures
        r@ == e@,
{
    match e {
        StacksTransactionEvent::SmartContractEvent { key } => {
            StacksTransactionEvent::SmartContractEvent { key: clone_contract_key(key) }
        },
        StacksTransactionEvent::StxTransferEvent => StacksTransactionEvent::StxTransferEvent,
        StacksTransactionEvent::StxMintEvent => StacksTransactionEvent::StxMintEvent,
        StacksTransactionEvent::StxBurnEvent => StacksTransactionEvent::StxBurnEvent,
        StacksTransactionEvent::StxLockEvent => StacksTransactionEvent::StxLockEvent,
        StacksTransactionEvent::NftTransferEvent { asset_identifier } => {
            StacksTransactionEvent::NftTransferEvent {
                asset_identifier: clone_asset_id(asset_identifier),
            }
        },
        StacksTransactionEvent::NftMintEvent { asset_identifier } => {
            StacksTransactionEvent::NftMintEvent {
                asset_identifier: clone_asset_id(asset_identifier),
            }
        },
        StacksTransactionEvent::NftBurnEvent { asset_identifier } => {
            StacksTransactionEvent::NftBurnEvent {
                asset_identifier: clone_asset_id(asset_identifier),
            }
        },
        StacksTransactionEvent::FtTransferEvent { asset_identifier } => {
            StacksTransactionEvent::FtTransferEvent {
                asset_identifier: clone_asset_id(asset_identifier),
            }
        },
        StacksTransactionEvent::FtMintEvent { asset_identifier } => {
            StacksTransactionEvent::FtMintEvent {
                asset_identifier: clone_asset_id(asset_identifier),
            }
        },
        StacksTransactionEvent::FtBurnEvent { asset_identifier } => {
            StacksTransactionEvent::FtBurnEvent {
                asset_identifier: clone_asset_id(asset_identifier),
            }
        },
    }
}

/// Mathematical image of a flattened event record.
#[verifier::ext_equal]
pub struct EventRecordView {
    pub committed: bool,
    pub txid: Seq<u8>,
    pub event: EventView,
}

/// One entry of the flattened event list: the event, its transaction
/// id, and whether the transaction committed.
pub struct EventRecord {
    pub committed: bool,
    pub txid: Vec<u8>,
    pub event: StacksTransactionEvent,
}

impl View for EventRecord {
    type V = EventRecordView;

    open spec fn view(&self) -> EventRecordView {
        EventRecordView { committed: self.committed, txid: self.txid@, event: self.event@ }
    }
}

/// Mathematical image of a transaction receipt.
#[verifier::ext_equal]
pub struct ReceiptView {
    pub txid: Seq<u8>,
    pub post_condition_aborted: bool,
    pub events: Seq<EventView>,
}

/// A transaction receipt as dispatch needs it: the transaction id,
/// whether a post-condition aborted it, and its ordered events.
pub struct StacksTransactionReceipt {
    pub txid: Vec<u8>,
    pub post_condition_aborted: bool,
    pub events: Vec<StacksTransactionEvent>,
}

impl View for StacksTransactionReceipt {
    type V = ReceiptView;

    open spec fn view(&self) -> ReceiptView {
        ReceiptView {
            txid: self.txid@,
            post_condition_aborted: self.post_condition_aborted,
            events: self.events@.map_values(|e: StacksTransactionEvent| e@),
        }
    }
}

/// The flattened records of one receipt, in event order.
pub open spec fn receipt_records(r: ReceiptView) -> Seq<EventRecordView> {
    r.events.map_values(
        |e: EventView|
            EventRecordView { committed: !r.post_condition_aborted, txid: r.txid, event: e },
    )
}

/// The flattened records of a batch of receipts, in receipt order.
pub open spec fn flatten_receipts(rs: Seq<ReceiptView>) -> Seq<EventRecordView>
    decreases rs.len(),
{
    if rs.len() == 0 {
        Seq::empty()
    } else {
        receipt_records(rs[0]) + flatten_receipts(rs.drop_first())
    }
}

/// Flattening a batch one receipt longer appends that receipt's
/// records.
pub proof fn lemma_flatten_snoc(rs: Seq<ReceiptView>, i: int)
    requires
        0 <= i < rs.len(),
    ensures
        flatten_receipts(rs.take(i + 1)) == flatten_receipts(rs.take(i)) + receipt_records(rs[i]),
    decreases i,
{
    if i == 0 {
        assert(rs.take(1) =~= seq![rs[0]]);
        assert(rs.take(1).drop_first() =~= Seq::<ReceiptView>::empty());
        assert(rs.take(0) =~= Seq::<ReceiptView>::empty());
        assert(flatten_receipts(rs.take(1)) =~= receipt_records(rs[0]));
        assert(flatten_receipts(rs.take(0)) + receipt_records(rs[0]) =~= receipt_records(rs[0]));
    } else {
        lemma_flatten_snoc(rs.drop_first(), i - 1);
        assert(rs.take(i + 1).drop_first() =~= rs.drop_first().take(i));
        assert(rs.take(i).drop_first() =~= rs.drop_first().take(i - 1));
        assert(rs.take(i + 1)[0] == rs[0]);
        assert(rs.take(i)[0] == rs[0]);
        assert(rs.drop_first()[i - 1] == rs[i]);
        assert(flatten_receipts(rs.take(i + 1)) =~= flatten_receipts(rs.take(i))
            + receipt_records(rs[i]));
    }
}

/// The kinds of subscription an observer can register: one per topic,
/// with keyed variants for contract and asset events.
pub enum EventKeyType {
    SmartContractEvent(ContractEventKey),
    BurnchainBlocks,
    MemPoolTransactions,
    Microblocks,
    STXEvent,
    AssetEvent(AssetIdentifier),
    AnyEvent,
    MinedBlocks,
    MinedMicroblocks,
    StackerDBChunks,
    BlockProposal,
}

/// Mathematical image of a subscription key.
#[verifier::ext_equal]
pub enum EventKeyTypeView {
    SmartContractEvent(ContractEventKeyView),
    BurnchainBlocks,
    MemPoolTransactions,
    Microblocks,
    STXEvent,
    AssetEvent(AssetIdView),
    AnyEvent,
    MinedBlocks,
    MinedMicroblocks,
    StackerDBChunks,
    BlockProposal,
}

impl View for EventKeyType {
    type V = EventKeyTypeView;

    open spec fn view(&self) -> EventKeyTypeView {
        match self {
            EventKeyType::SmartContractEvent(k) => EventKeyTypeView::SmartContractEvent(k@),
            EventKeyType::BurnchainBlocks => EventKeyTypeView::BurnchainBlocks,
            EventKeyType::MemPoolTransactions => EventKeyTypeView::MemPoolTransactions,
            EventKeyType::Microblocks => EventKeyTypeView::Microblocks,
            EventKeyType::STXEvent => EventKeyTypeView::STXEvent,
            EventKeyType::AssetEvent(a) => EventKeyTypeView::AssetEvent(a@),
            EventKeyType::AnyEvent => EventKeyTypeView::AnyEvent,
            EventKeyType::MinedBlocks => EventKeyTypeView::MinedBlocks,
            EventKeyType::MinedMicroblocks => EventKeyTypeView::MinedMicroblocks,
            EventKeyType::StackerDBChunks => EventKeyTypeView::StackerDBChunks,
            EventKeyType::BlockProposal => EventKeyTypeView::BlockProposal,
        }
    }
}

/// What one observer is configured with: its endpoint and the topics it
/// subscribes to.
pub struct EventObserverConfig {
    pub endpoint: String,
    pub events_keys: Vec<EventKeyType>,
}

} // verus!
