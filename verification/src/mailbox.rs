//! The in-process mailbox: a single slot holding at most one active
//! registration, letting one internal consumer (a miner coordinator)
//! receive StackerDB chunk events without going through HTTP.  Channels
//! are identified by tokens; the surrounding process wires a token to a
//! real channel pair and takes the lock around slot access.

use vstd::prelude::*;

use crate::events::{contract_id_eq, ContractIdView, QualifiedContractIdentifier};

verus! {

/// The bytes of the well-known name prefix "signers" of the protected
/// system databases.
pub open spec fn signers_name() -> Seq<u8> {
    seq![115u8, 105u8, 103u8, 110u8, 101u8, 114u8, 115u8]
}

/// Whether a contract names a protected signers database: published by
/// the boot address, with a name starting with the well-known prefix.
pub open spec fn is_signers_db(c: ContractIdView) -> bool {
    c.boot && c.name.len() >= 7 && c.name.subrange(0, 7) == signers_name()
}

/// Whether a contract name starts with the signers prefix.
pub fn name_starts_with_signers(name: &Vec<u8>) -> (r: bool)
    ensures
        r == (name@.len() >= 7 && name@.subrange(0, 7) == signers_name()),
{
    if name.len() < 7 {
        return false;
    }
    let r = name[0] == 115 && name[1] == 105 && name[2] == 103 && name[3] == 110 && name[4] == 101
        && name[5] == 114 && name[6] == 115;
    proof {
        if r {
            assert(name@.subrange(0, 7) =~= signers_name());
        } else {
            assert(name@.subrange(0, 7) != signers_name()) by {
                if name@.subrange(0, 7) == signers_name() {
                    assert(name@[0] == signers_name()[0]);
                    assert(name@[1] == signers_name()[1]);
                    assert(name@[2] == signers_name()[2]);
                    assert(name@[3] == signers_name()[3]);
                    assert(name@[4] == signers_name()[4]);
                    assert(name@[5] == signers_name()[5]);
                    assert(name@[6] == signers_name()[6]);
                }
            }
        }
    }
    r
}

/// Mathematical image of a registration.
#[verifier::ext_equal]
pub struct RegistrationView {
    pub sender: u64,
    pub interested_in_signers: bool,
    pub other_interests: Seq<ContractIdView>,
}

/// One active registration: the token of the channel it sends into,
/// the fixed signers-interest flag, and explicit interests.
pub struct InnerStackerDBChannel {
    /// Token of the channel for sending chunk events to the listener.
    pub sender: u64,
    /// Does the listener want chunks of the protected signers
    /// databases?
    pub interested_in_signers: bool,
    /// Which other StackerDB contracts the listener is interested in.
    pub other_interests: Vec<QualifiedContractIdentifier>,
}

impl View for InnerStackerDBChannel {
    type V = RegistrationView;

    open spec fn view(&self) -> RegistrationView {
        RegistrationView {
            sender: self.sender,
            interested_in_signers: self.interested_in_signers,
            other_interests: self.other_interests@.map_values(
                |c: QualifiedContractIdentifier| c@,
            ),
        }
    }
}

impl InnerStackerDBChannel {
    /// The registration a miner coordinator gets: interested in the
    /// signers databases, with no explicit interests.  The receiver
    /// half of the fresh channel carries the same token.
    pub fn new_miner_receiver(sender: u64) -> (r: (u64, InnerStackerDBChannel))
        ensures
            r.0 == sender,
            r.1@ == (RegistrationView {
                sender,
                interested_in_signers: true,
                other_interests: Seq::empty(),
            }),
    {
        let sender_info = InnerStackerDBChannel {
            sender,
            interested_in_signers: true,
            other_interests: Vec::new(),
        };
        proof {
            assert(sender_info@ =~= (RegistrationView {
                sender,
                interested_in_signers: true,
                other_interests: Seq::empty(),
            }));
        }
        (sender, sender_info)
    }
}

/// Mathematical image of the mailbox.
#[verifier::ext_equal]
pub struct MailboxView {
    pub slot: Option<RegistrationView>,
    pub next_token: u64,
}

/// What `register` does: a fresh channel token is taken, a
/// miner-coordinator registration with that token replaces whatever the
/// slot held, and whether something was displaced is reported.
pub open spec fn register_spec(m: MailboxView) -> (MailboxView, u64, bool) {
    (
        MailboxView {
            slot: Some(
                RegistrationView {
                    sender: m.next_token,
                    interested_in_signers: true,
                    other_interests: Seq::empty(),
                },
            ),
            next_token: (m.next_token + 1) as u64,
        },
        m.next_token,
        m.slot is Some,
    )
}

/// What `unregister` does: the slot is cleared unconditionally.
pub open spec fn unregister_spec(m: MailboxView) -> MailboxView {
    MailboxView { slot: None, ..m }
}

/// The channel a chunk event for `db` is forwarded to, if any: the
/// active registration's, when its fixed signers interest covers the
/// database or its explicit interests name it.
pub open spec fn active_sender_spec(m: MailboxView, db: ContractIdView) -> Option<u64> {
    match m.slot {
        None => None,
        Some(reg) => {
            if reg.interested_in_signers && is_signers_db(db) {
                Some(reg.sender)
            } else if reg.other_interests.contains(db) {
                Some(reg.sender)
            } else {
                None
            }
        },
    }
}

/// The single-slot mailbox.  The surrounding process guards a value of
/// this type with one mutex, held only for slot manipulation.
pub struct StackerDBChannel {
    /// At most one active registration.
    pub sender_info: Option<InnerStackerDBChannel>,
    /// Source of fresh channel tokens; grows with every registration.
    pub next_token: u64,
}

impl View for StackerDBChannel {
    type V = MailboxView;

    open spec fn view(&self) -> MailboxView {
        MailboxView {
            slot: match self.sender_info {
                None => None,
                Some(info) => Some(info@),
            },
            next_token: self.next_token,
        }
    }
}

impl StackerDBChannel {
    pub fn new() -> (r: StackerDBChannel)
        ensures
            r@.slot is None,
            r@.next_token == 0,
    {
        StackerDBChannel { sender_info: None, next_token: 0 }
    }

    /// Consume a receiver token and clear the slot unconditionally: no
    /// forwarding happens until somebody registers again.
    pub fn replace_receiver(&mut self, receiver: u64)
        ensures
            final(self)@ == unregister_spec(old(self)@),
    {
        // consuming the token stands for dropping the receiver end
        let _consumed = receiver;
        self.sender_info = None;
        proof {
            assert(self@ =~= unregister_spec(old(self)@));
        }
    }

    /// Create a fresh channel for the miner coordinator, displacing any
    /// registration still in place.  Returns the receiver token and
    /// whether something was displaced.
    pub fn register_miner_coordinator(&mut self) -> (r: (u64, bool))
        requires
            old(self)@.next_token < u64::MAX,
        ensures
            (final(self)@, r.0, r.1) == register_spec(old(self)@),
    {
        let token: u64 = self.next_token;
        self.next_token = token + 1;
        let (recv, new_sender) = InnerStackerDBChannel::new_miner_receiver(token);
        let replaced = self.sender_info.is_some();
        self.sender_info = Some(new_sender);
        proof {
            assert(self@ =~= register_spec(old(self)@).0);
        }
        (recv, replaced)
    }

    /// The channel to broadcast a chunk event for `stackerdb` to, or
    /// nothing when nobody listening is interested.
    pub fn is_active(&self, stackerdb: &QualifiedContractIdentifier) -> (r: Option<u64>)
        ensures
            r == active_sender_spec(self@, stackerdb@),
    {
        let info = match &self.sender_info {
            None => {
                return None;
            },
            Some(info) => info,
        };
        proof {
            assert(self@.slot == Some(info@));
        }
        if info.interested_in_signers && stackerdb.is_boot() && name_starts_with_signers(
            &stackerdb.name,
        ) {
            proof {
                assert(is_signers_db(stackerdb@));
            }
            return Some(info.sender);
        }
        let mut i: usize = 0;
        while i < info.other_interests.len()
            invariant
                self@.slot == Some(info@),
                i <= info.other_interests@.len(),
                forall|j: int| 0 <= j < i ==> (#[trigger] info.other_interests@[j])@ != stackerdb@,
            decreases info.other_interests.len() - i,
        {
            if contract_id_eq(&info.other_interests[i], stackerdb) {
                proof {
                    assert(info@.other_interests[i as int] == stackerdb@);
                }
                return Some(info.sender);
            }
            i = i + 1;
        }
        proof {
            assert(!info@.other_interests.contains(stackerdb@)) by {
                if info@.other_interests.contains(stackerdb@) {
                    let j = choose|j: int|
                        0 <= j < info@.other_interests.len() && #[trigger] info@.other_interests[j]
                            == stackerdb@;
                    assert(info.other_interests@[j]@ == stackerdb@);
                }
            }
        }
        None
    }
}

/// Mailbox single-owner: a second registration displaces the first —
/// after it, no topic forwards to the first registration's channel,
/// even though the first receiver was never explicitly unregistered.
pub proof fn lemma_mailbox_single_owner(m0: MailboxView, db: ContractIdView)
    requires
        m0.next_token < u64::MAX - 1,
    ensures
        ({
            let (m1, first_receiver, _) = register_spec(m0);
            let (m2, _, _) = register_spec(m1);
            active_sender_spec(m2, db) != Some(first_receiver)
        }),
{
}

/// After `unregister`, no topic forwards anywhere until somebody
/// registers again.
pub proof fn lemma_mailbox_unregister_inactive(m: MailboxView, db: ContractIdView)
    ensures
        active_sender_spec(unregister_spec(m), db) is None,
{
}

} // verus!
