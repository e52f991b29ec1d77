//! A decentralized compute marketplace: clients post paid jobs, registered
//! providers execute them, and payment is held in escrow until a job resolves
//! (completed, failed, cancelled, or timed out), then split between the
//! provider and a community pool.
//!
//! The whole lifecycle state machine, escrow accounting, fee split, the two
//! idempotent sweep operations and the reputation score are verified; a host
//! shell is expected to persist the state and carry out the declared fund
//! transfers after each operation commits.

pub mod counting;
pub mod error;
pub mod fees;
pub mod laws;
pub mod ledger;
pub mod msg;
pub mod order;
pub mod registry;
pub mod state;
pub mod sweep;

pub use error::ContractError;
