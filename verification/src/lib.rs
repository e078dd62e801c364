//! A custodial distribution ledger: one pooled balance is paid out to
//! whitelisted recipients, each up to an entitlement that the owner sets.
//!
//! The ledger keeps the books and decides; it moves no value itself. Whoever
//! uses it supplies the identity of each caller and carries out the transfer
//! that a claim asks for.

pub mod claim;
pub mod error;
pub mod history;
pub mod identity;
pub mod state;
pub mod whitelist;

pub use claim::{claim, claimable};
pub use error::{ClaimError, ErrorCode};
pub use state::{add_to_whitelist, initialize, remove_from_whitelist, ClaimedAmount, Vault};
