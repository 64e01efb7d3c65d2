use chain_relay::events::{
    AssetIdentifier, ContractEventKey, EventKeyType, EventObserverConfig,
    QualifiedContractIdentifier, StacksTransactionEvent, StacksTransactionReceipt,
};
use chain_relay::registry::EventDispatcher;

fn contract(name: &str) -> QualifiedContractIdentifier {
    QualifiedContractIdentifier {
        boot: false,
        issuer: b"ST2QKZ4FKHAH1NQKYKYAYZPY440FEPK7GZ1R5HBP2".to_vec(),
        name: name.as_bytes().to_vec(),
    }
}

fn contract_key(name: &str, event: &str) -> ContractEventKey {
    ContractEventKey { contract: contract(name), event_name: event.as_bytes().to_vec() }
}

fn asset(name: &str) -> AssetIdentifier {
    AssetIdentifier { contract: contract("tokens"), asset_name: name.as_bytes().to_vec() }
}

fn observer(endpoint: &str, keys: Vec<EventKeyType>) -> EventObserverConfig {
    EventObserverConfig { endpoint: String::from(endpoint), events_keys: keys }
}

fn receipt(txid: u8, aborted: bool, events: Vec<StacksTransactionEvent>) -> StacksTransactionReceipt {
    StacksTransactionReceipt { txid: vec![txid; 32], post_condition_aborted: aborted, events }
}

fn batch() -> Vec<StacksTransactionReceipt> {
    vec![
        receipt(
            1,
            false,
            vec![
                StacksTransactionEvent::SmartContractEvent { key: contract_key("pool", "swap") },
                StacksTransactionEvent::StxTransferEvent,
            ],
        ),
        receipt(
            2,
            true,
            vec![
                StacksTransactionEvent::NftMintEvent { asset_identifier: asset("punks") },
                StacksTransactionEvent::FtTransferEvent { asset_identifier: asset("usda") },
                StacksTransactionEvent::SmartContractEvent { key: contract_key("pool", "join") },
            ],
        ),
    ]
}

#[test]
fn any_event_observer_receives_the_full_batch() {
    let mut d = EventDispatcher::new();
    d.register_observer(&observer("one:1", vec![EventKeyType::AnyEvent]));
    let (matrix, events) = d.create_dispatch_matrix_and_event_vector(&batch());
    assert_eq!(events.len(), 5);
    assert_eq!(matrix.len(), 1);
    assert_eq!(matrix[0], vec![0, 1, 2, 3, 4]);
}

#[test]
fn contract_key_observer_receives_exactly_matching_indices() {
    let mut d = EventDispatcher::new();
    d.register_observer(&observer(
        "one:1",
        vec![EventKeyType::SmartContractEvent(contract_key("pool", "swap"))],
    ));
    d.register_observer(&observer(
        "two:2",
        vec![EventKeyType::SmartContractEvent(contract_key("pool", "join"))],
    ));
    let (matrix, _events) = d.create_dispatch_matrix_and_event_vector(&batch());
    assert_eq!(matrix[0], vec![0]);
    assert_eq!(matrix[1], vec![4]);
}

#[test]
fn stx_and_asset_observers() {
    let mut d = EventDispatcher::new();
    d.register_observer(&observer("stx:1", vec![EventKeyType::STXEvent]));
    d.register_observer(&observer("nft:1", vec![EventKeyType::AssetEvent(asset("punks"))]));
    d.register_observer(&observer(
        "both:1",
        vec![EventKeyType::AssetEvent(asset("usda")), EventKeyType::STXEvent],
    ));
    let (matrix, _) = d.create_dispatch_matrix_and_event_vector(&batch());
    assert_eq!(matrix[0], vec![1]);
    assert_eq!(matrix[1], vec![2]);
    assert_eq!(matrix[2], vec![1, 3]);
}

#[test]
fn flattened_records_keep_order_txid_and_committed_flag() {
    let d = EventDispatcher::new();
    let (matrix, events) = d.create_dispatch_matrix_and_event_vector(&batch());
    assert_eq!(matrix.len(), 0);
    assert_eq!(events.len(), 5);
    assert!(events[0].committed);
    assert!(events[1].committed);
    assert!(!events[2].committed);
    assert_eq!(events[0].txid, vec![1u8; 32]);
    assert_eq!(events[4].txid, vec![2u8; 32]);
}

#[test]
fn two_observers_can_share_a_contract_key() {
    let mut d = EventDispatcher::new();
    let key = EventKeyType::SmartContractEvent(contract_key("pool", "swap"));
    d.register_observer(&observer("one:1", vec![key]));
    d.register_observer(&observer(
        "two:2",
        vec![EventKeyType::SmartContractEvent(contract_key("pool", "swap"))],
    ));
    let (matrix, _) = d.create_dispatch_matrix_and_event_vector(&batch());
    assert_eq!(matrix[0], vec![0]);
    assert_eq!(matrix[1], vec![0]);
}

#[test]
fn an_empty_batch_yields_empty_rows() {
    let mut d = EventDispatcher::new();
    d.register_observer(&observer("one:1", vec![EventKeyType::AnyEvent]));
    let (matrix, events) = d.create_dispatch_matrix_and_event_vector(&Vec::new());
    assert!(events.is_empty());
    assert_eq!(matrix, vec![Vec::<usize>::new()]);
}

#[test]
fn filter_observers_orders_by_index_and_honors_include_any() {
    let mut d = EventDispatcher::new();
    d.register_observer(&observer("any:1", vec![EventKeyType::AnyEvent]));
    d.register_observer(&observer("burn:1", vec![EventKeyType::BurnchainBlocks]));
    d.register_observer(&observer("none:1", vec![]));
    let with_any = d.filter_observers(&d.burn_block_observers_lookup, true);
    assert_eq!(with_any, vec![0, 1]);
    let without_any = d.filter_observers(&d.burn_block_observers_lookup, false);
    assert_eq!(without_any, vec![1]);
    let miners = d.filter_observers(&d.miner_observers_lookup, false);
    assert_eq!(miners, Vec::<u16>::new());
}

#[test]
fn event_dispatches_checks_topic_and_any() {
    let mut d = EventDispatcher::new();
    d.register_observer(&observer("stx:1", vec![EventKeyType::STXEvent]));
    d.register_observer(&observer("any:1", vec![EventKeyType::AnyEvent]));
    let stx = StacksTransactionEvent::StxLockEvent;
    let nft = StacksTransactionEvent::NftBurnEvent { asset_identifier: asset("punks") };
    assert!(d.event_dispatches(&stx, 0));
    assert!(!d.event_dispatches(&nft, 0));
    assert!(d.event_dispatches(&stx, 1));
    assert!(d.event_dispatches(&nft, 1));
}

#[test]
fn update_dispatch_matrix_adds_index_to_subscribed_rows_once() {
    let mut d = EventDispatcher::new();
    d.register_observer(&observer("nft:1", vec![EventKeyType::AssetEvent(asset("punks"))]));
    d.register_observer(&observer("other:1", vec![]));
    let mut matrix: Vec<Vec<usize>> = vec![vec![0], vec![0]];
    d.update_dispatch_matrix_if_observer_subscribed(&asset("punks"), 3, &mut matrix);
    d.update_dispatch_matrix_if_observer_subscribed(&asset("punks"), 3, &mut matrix);
    assert_eq!(matrix[0], vec![0, 3]);
    assert_eq!(matrix[1], vec![0]);
}
