//! Deterministic state-transition runtime of a sharded ledger.
//!
//! Given a state root, a batch of incoming receipts and a batch of signed
//! transactions, the runtime produces the next state root, the outgoing
//! receipts by shard, one result per input and the stake proposals.
//!
//! - `bytes`, `codec`, `hash`, `keys`: byte strings, the encoding of
//!   stored values, the digest, and the layout of the keys.
//! - `sorted`, `state`: the committed state with its root, and the staged
//!   layer with rollback and commit.
//! - `types`, `transaction`, `records`, `error`: what transactions,
//!   receipts and accounts are made of, and why an input fails.
//! - `tx_stakes`, `mana`: the mana ledger.
//! - `tx_applier`, `receipt_applier`, `executor`, `ext`: applying one
//!   input, and the bridge to the contract executor.
//! - `routing`, `runtime`: the apply step over all inputs, and genesis.
//! - `laws`, `step_laws`: what holds of one input, and of a whole step.
pub mod bytes;
pub mod codec;
pub mod error;
pub mod executor;
pub mod ext;
pub mod hash;
pub mod keys;
pub mod laws;
pub mod mana;
pub mod receipt_applier;
pub mod records;
pub mod routing;
pub mod runtime;
pub mod sorted;
pub mod state;
pub mod step_laws;
pub mod transaction;
pub mod tx_applier;
pub mod tx_stakes;
pub mod types;

pub use records::Account;
pub use runtime::{ApplyProgress, ApplyResult, ApplySession, ApplyState, Runtime};
