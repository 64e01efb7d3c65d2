use chain_relay::payload::{
    receipt_status, status_text, NakamotoSignerEntry, PoxStartCycleInfo, ReceiptStatus, RewardSet,
    RewardSetEventPayload,
};

#[test]
fn receipt_status_follows_commit_and_post_conditions() {
    assert_eq!(receipt_status(false, Some(true), false), ReceiptStatus::Success);
    assert_eq!(receipt_status(false, Some(false), false), ReceiptStatus::AbortByResponse);
    assert_eq!(receipt_status(true, Some(true), false), ReceiptStatus::AbortByPostCondition);
    assert_eq!(receipt_status(true, Some(false), false), ReceiptStatus::AbortByPostCondition);
    // a poison-microblock transaction has no response value and reports success
    assert_eq!(receipt_status(false, None, true), ReceiptStatus::Success);
}

#[test]
fn status_texts_are_the_wire_strings() {
    assert_eq!(status_text(&ReceiptStatus::Success), "success");
    assert_eq!(status_text(&ReceiptStatus::AbortByResponse), "abort_by_response");
    assert_eq!(status_text(&ReceiptStatus::AbortByPostCondition), "abort_by_post_condition");
}

#[test]
fn reward_set_payload_copies_signers_and_threshold() {
    let set = RewardSet {
        rewarded_addresses: vec![b"addr-one".to_vec(), b"addr-two".to_vec()],
        start_cycle_state: PoxStartCycleInfo { missed_reward_slots: vec![(b"addr-three".to_vec(), 17)] },
        signers: Some(vec![
            NakamotoSignerEntry { signing_key: [5u8; 33], stacked_amt: 1_000_000, weight: 3 },
            NakamotoSignerEntry { signing_key: [6u8; 33], stacked_amt: 2_000_000, weight: 4 },
        ]),
        pox_ustx_threshold: Some(90_000),
    };
    let payload = RewardSetEventPayload::from_reward_set(&set);
    assert_eq!(payload.rewarded_addresses, set.rewarded_addresses);
    assert_eq!(
        payload.start_cycle_state.missed_reward_slots,
        vec![(b"addr-three".to_vec(), 17)]
    );
    let signers = payload.signers.expect("signers");
    assert_eq!(signers.len(), 2);
    assert_eq!(signers[0].signing_key, [5u8; 33]);
    assert_eq!(signers[0].stacked_amt, 1_000_000);
    assert_eq!(signers[1].weight, 4);
    assert_eq!(payload.pox_ustx_threshold, Some(90_000));
}

#[test]
fn reward_set_payload_keeps_absent_signers_absent() {
    let set = RewardSet {
        rewarded_addresses: Vec::new(),
        start_cycle_state: PoxStartCycleInfo { missed_reward_slots: Vec::new() },
        signers: None,
        pox_ustx_threshold: None,
    };
    let payload = RewardSetEventPayload::from_reward_set(&set);
    assert!(payload.signers.is_none());
    assert!(payload.pox_ustx_threshold.is_none());
    assert!(payload.rewarded_addresses.is_empty());
    assert!(payload.start_cycle_state.missed_reward_slots.is_empty());
}

#[test]
fn signer_entry_payload_mirrors_the_entry() {
    let entry = NakamotoSignerEntry { signing_key: [9u8; 33], stacked_amt: 42, weight: 1 };
    let p = RewardSetEventPayload::signer_entry_to_payload(&entry);
    assert_eq!(p.signing_key, entry.signing_key);
    assert_eq!(p.stacked_amt, 42);
    assert_eq!(p.weight, 1);
}
