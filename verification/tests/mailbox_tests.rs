use chain_relay::events::QualifiedContractIdentifier;
use chain_relay::mailbox::{InnerStackerDBChannel, StackerDBChannel};

fn signers_db(n: u8) -> QualifiedContractIdentifier {
    QualifiedContractIdentifier {
        boot: true,
        issuer: b"ST000000000000000000002AMW42H".to_vec(),
        name: format!("signers-{}", n).into_bytes(),
    }
}

fn plain_db(name: &str) -> QualifiedContractIdentifier {
    QualifiedContractIdentifier {
        boot: false,
        issuer: b"ST2QKZ4FKHAH1NQKYKYAYZPY440FEPK7GZ1R5HBP2".to_vec(),
        name: name.as_bytes().to_vec(),
    }
}

#[test]
fn register_reports_displacement() {
    let mut ch = StackerDBChannel::new();
    let (recv1, replaced1) = ch.register_miner_coordinator();
    assert!(!replaced1);
    let (recv2, replaced2) = ch.register_miner_coordinator();
    assert!(replaced2);
    assert_ne!(recv1, recv2);
}

/// After a second register, forwarding goes to the second channel only:
/// the first receiver stops receiving although it was never
/// unregistered.
#[test]
fn second_registration_displaces_the_first() {
    let mut ch = StackerDBChannel::new();
    let (first_receiver, _) = ch.register_miner_coordinator();
    let (second_receiver, _) = ch.register_miner_coordinator();
    let active = ch.is_active(&signers_db(1));
    assert_eq!(active, Some(second_receiver));
    assert_ne!(active, Some(first_receiver));
}

#[test]
fn unregister_clears_every_topic() {
    let mut ch = StackerDBChannel::new();
    let (recv, _) = ch.register_miner_coordinator();
    assert!(ch.is_active(&signers_db(0)).is_some());
    ch.replace_receiver(recv);
    assert!(ch.is_active(&signers_db(0)).is_none());
    assert!(ch.is_active(&plain_db("anything")).is_none());
}

#[test]
fn miner_registration_hears_signers_databases_only() {
    let mut ch = StackerDBChannel::new();
    let (recv, _) = ch.register_miner_coordinator();
    assert_eq!(ch.is_active(&signers_db(2)), Some(recv));
    // same name but not published by the boot address
    let mut fake = signers_db(2);
    fake.boot = false;
    assert!(ch.is_active(&fake).is_none());
    assert!(ch.is_active(&plain_db("signal")).is_none());
}

#[test]
fn explicit_interests_forward_too() {
    let ch = StackerDBChannel {
        sender_info: Some(InnerStackerDBChannel {
            sender: 7,
            interested_in_signers: false,
            other_interests: vec![plain_db("mempool-db")],
        }),
        next_token: 8,
    };
    assert_eq!(ch.is_active(&plain_db("mempool-db")), Some(7));
    assert!(ch.is_active(&plain_db("other-db")).is_none());
    assert!(ch.is_active(&signers_db(0)).is_none());
}

#[test]
fn new_miner_receiver_pairs_token_with_signers_interest() {
    let (recv, info) = InnerStackerDBChannel::new_miner_receiver(41);
    assert_eq!(recv, 41);
    assert_eq!(info.sender, 41);
    assert!(info.interested_in_signers);
    assert!(info.other_interests.is_empty());
}
