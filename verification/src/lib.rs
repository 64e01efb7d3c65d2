//! Chain-data delivery layer of a blockchain node: topic-based event
//! dispatch to HTTP observers, an in-process single-slot mailbox, and a
//! byte-budget-bounded streaming protocol for tenures (parent-linked runs
//! of blocks sharing one consensus hash).

pub mod chain;
pub mod codec;
pub mod delivery;
pub mod encoding;
pub mod errors;
pub mod events;
pub mod mailbox;
pub mod payload;
pub mod registry;
pub mod rpc;
pub mod tenure;
pub mod transport;
