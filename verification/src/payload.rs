//! The parts of observer payloads that carry logic: the status a
//! transaction receipt reports, and the reward-set payload with its
//! signer entries.  The JSON shape of each payload is assembled by the
//! surrounding process from these plain values.

use vstd::prelude::*;

verus! {

/// The status string a receipt reports to observers.
#[derive(Clone, Copy, Debug, PartialEq, Eq, Structural)]
pub enum ReceiptStatus {
    /// The transaction committed.
    Success,
    /// The transaction's own response aborted it.
    AbortByResponse,
    /// A post-condition aborted it.
    AbortByPostCondition,
}

/// The wire text of a receipt status.
pub fn status_text(s: &ReceiptStatus) -> (r: &'static str)
    ensures
        s == ReceiptStatus::Success ==> r@ == "success"@,
        s == ReceiptStatus::AbortByResponse ==> r@ == "abort_by_response"@,
        s == ReceiptStatus::AbortByPostCondition ==> r@ == "abort_by_post_condition"@,
{
    match s {
        ReceiptStatus::Success => "success",
        ReceiptStatus::AbortByResponse => "abort_by_response",
        ReceiptStatus::AbortByPostCondition => "abort_by_post_condition",
    }
}

/// The status of one transaction receipt.  A receipt's result is a
/// response value carrying a committed flag, except for a
/// poison-microblock transaction, which has no response and always
/// reports success.  Any other receipt without a response value does
/// not occur.
pub fn receipt_status(
    post_condition_aborted: bool,
    result_committed: Option<bool>,
    poison_microblock: bool,
) -> (r: ReceiptStatus)
    requires
        result_committed is Some || poison_microblock,
    ensures
        r == (match result_committed {
            Some(committed) => {
                if post_condition_aborted {
                    ReceiptStatus::AbortByPostCondition
                } else if committed {
                    ReceiptStatus::Success
                } else {
                    ReceiptStatus::AbortByResponse
                }
            },
            None => ReceiptStatus::Success,
        }),
{
    match result_committed {
        Some(committed) => {
            if post_condition_aborted {
                ReceiptStatus::AbortByPostCondition
            } else if committed {
                ReceiptStatus::Success
            } else {
                ReceiptStatus::AbortByResponse
            }
        },
        None => ReceiptStatus::Success,
    }
}

/// One signer of a reward set, as chain state reports it.
pub struct NakamotoSignerEntry {
    pub signing_key: [u8; 33],
    pub stacked_amt: u128,
    pub weight: u32,
}

/// One signer of a reward set, as observers receive it.
pub struct NakamotoSignerEntryPayload {
    pub signing_key: [u8; 33],
    pub stacked_amt: u128,
    pub weight: u32,
}

/// The missed reward slots recorded at the start of a reward cycle:
/// pairs of a reward address and an amount.
pub struct PoxStartCycleInfo {
    pub missed_reward_slots: Vec<(Vec<u8>, u128)>,
}

/// A reward set as chain state reports it: reward addresses, the
/// cycle-start record, the signers (present for newer-format reward
/// sets only), and the stacking threshold.
pub struct RewardSet {
    pub rewarded_addresses: Vec<Vec<u8>>,
    pub start_cycle_state: PoxStartCycleInfo,
    pub signers: Option<Vec<NakamotoSignerEntry>>,
    pub pox_ustx_threshold: Option<u128>,
}

/// The reward-set payload sent to observers.
pub struct RewardSetEventPayload {
    pub rewarded_addresses: Vec<Vec<u8>>,
    pub start_cycle_state: PoxStartCycleInfo,
    pub signers: Option<Vec<NakamotoSignerEntryPayload>>,
    pub pox_ustx_threshold: Option<u128>,
}

impl RewardSetEventPayload {
    /// Copy one signer entry into its payload form.
    pub fn signer_entry_to_payload(entry: &NakamotoSignerEntry) -> (r: NakamotoSignerEntryPayload)
        ensures
            r.signing_key == entry.signing_key,
            r.stacked_amt == entry.stacked_amt,
            r.weight == entry.weight,
    {
        NakamotoSignerEntryPayload {
            signing_key: entry.signing_key,
            stacked_amt: entry.stacked_amt,
            weight: entry.weight,
        }
    }

    /// Build the payload of a reward set: the same addresses, the same
    /// cycle-start record, the same signers in payload form, the same
    /// threshold.
    pub fn from_reward_set(reward_set: &RewardSet) -> (r: RewardSetEventPayload)
        ensures
            r.rewarded_addresses@.len() == reward_set.rewarded_addresses@.len(),
            forall|i: int|
                0 <= i < r.rewarded_addresses@.len() ==> (#[trigger] r.rewarded_addresses@[i])@
                    == reward_set.rewarded_addresses@[i]@,
            r.start_cycle_state.missed_reward_slots@.len()
                == reward_set.start_cycle_state.missed_reward_slots@.len(),
            forall|i: int|
                0 <= i < r.start_cycle_state.missed_reward_slots@.len() ==> ((
                #[trigger] r.start_cycle_state.missed_reward_slots@[i]).0@
                    == reward_set.start_cycle_state.missed_reward_slots@[i].0@
                    && r.start_cycle_state.missed_reward_slots@[i].1
                    == reward_set.start_cycle_state.missed_reward_slots@[i].1),
            r.signers is Some <==> reward_set.signers is Some,
            r.signers is Some ==> {
                let rs = r.signers->Some_0@;
                let es = reward_set.signers->Some_0@;
                &&& rs.len() == es.len()
                &&& forall|i: int|
                    0 <= i < rs.len() ==> ((#[trigger] rs[i]).signing_key == es[i].signing_key
                        && rs[i].stacked_amt == es[i].stacked_amt && rs[i].weight == es[i].weight)
            },
            r.pox_ustx_threshold == reward_set.pox_ustx_threshold,
    {
        let mut rewarded_addresses: Vec<Vec<u8>> = Vec::new();
        let mut i: usize = 0;
        while i < reward_set.rewarded_addresses.len()
            invariant
                i <= reward_set.rewarded_addresses@.len(),
                rewarded_addresses@.len() == i,
                forall|j: int|
                    0 <= j < i ==> (#[trigger] rewarded_addresses@[j])@
                        == reward_set.rewarded_addresses@[j]@,
            decreases reward_set.rewarded_addresses.len() - i,
        {
            rewarded_addresses.push(
                crate::encoding::clone_bytes(&reward_set.rewarded_addresses[i]),
            );
            i = i + 1;
        }
        let mut missed_reward_slots: Vec<(Vec<u8>, u128)> = Vec::new();
        let mut m: usize = 0;
        while m < reward_set.start_cycle_state.missed_reward_slots.len()
            invariant
                m <= reward_set.start_cycle_state.missed_reward_slots@.len(),
                missed_reward_slots@.len() == m,
                forall|k: int|
                    0 <= k < m ==> ((#[trigger] missed_reward_slots@[k]).0@
                        == reward_set.start_cycle_state.missed_reward_slots@[k].0@
                        && missed_reward_slots@[k].1
                        == reward_set.start_cycle_state.missed_reward_slots@[k].1),
            decreases reward_set.start_cycle_state.missed_reward_slots.len() - m,
        {
            let addr = crate::encoding::clone_bytes(
                &reward_set.start_cycle_state.missed_reward_slots[m].0,
            );
            let amt = reward_set.start_cycle_state.missed_reward_slots[m].1;
            missed_reward_slots.push((addr, amt));
            m = m + 1;
        }
        let signers: Option<Vec<NakamotoSignerEntryPayload>> = match &reward_set.signers {
            None => None,
            Some(entries) => {
                let mut out: Vec<NakamotoSignerEntryPayload> = Vec::new();
                let mut j: usize = 0;
                while j < entries.len()
                    invariant
                        j <= entries@.len(),
                        out@.len() == j,
                        forall|k: int|
                            0 <= k < j ==> (#[trigger] out@[k]).signing_key
                                == entries@[k].signing_key && out@[k].stacked_amt
                                == entries@[k].stacked_amt && out@[k].weight == entries@[k].weight,
                    decreases entries.len() - j,
                {
                    out.push(Self::signer_entry_to_payload(&entries[j]));
                    j = j + 1;
                }
                Some(out)
            },
        };
        let pox_ustx_threshold = match &reward_set.pox_ustx_threshold {
            None => None,
            Some(v) => Some(*v),
        };
        RewardSetEventPayload {
            rewarded_addresses,
            start_cycle_state: PoxStartCycleInfo { missed_reward_slots },
            signers,
            pox_ustx_threshold,
        }
    }
}

} // verus!
