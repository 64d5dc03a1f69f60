//! Two-party fee-escrow matches: the match state machine and the escrow
//! bookkeeping that keeps custody consistent with the match records.

pub mod types;
pub mod store;
pub mod provider;

pub use types::{AccountAddress, Amount, MatchError, MatchRecord, ResourceAddress, Transfer};
pub use provider::MatchProvider;
