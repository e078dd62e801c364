//! Why the ledger refuses an operation.

use vstd::prelude::*;

verus! {

/// The reasons for which the ledger itself refuses an operation.
#[derive(Clone, Copy, Debug, PartialEq, Eq, Structural)]
pub enum ErrorCode {
    /// The vault holds nothing at the time of the claim.
    VaultEmpty,
    /// The claimant has no entry on the whitelist, or an entitlement of zero.
    UnauthorizedWallet,
    /// The claimant has already been paid all of their entitlement.
    AlreadyClaimed,
    /// The vault holds less than what is still owed to the claimant.
    InsufficientAmount,
    /// Somebody other than the vault's owner tried to change the whitelist.
    NotVaultOwner,
}

impl ErrorCode {
    /// The text shown to a user for this error.
    pub open spec fn text(self) -> Seq<char> {
        match self {
            ErrorCode::VaultEmpty => "Vault is empty"@,
            ErrorCode::UnauthorizedWallet => "Wallet is not authorized to claim"@,
            ErrorCode::AlreadyClaimed => "Wallet has already claimed tokens"@,
            ErrorCode::InsufficientAmount => "Insufficient claimable amount"@,
            ErrorCode::NotVaultOwner => "Only the vault owner can modify the whitelist"@,
        }
    }

    /// The text shown to a user for this error.
    pub fn message(&self) -> (text: &'static str)
        ensures
            text@ == self.text(),
    {
        match self {
            ErrorCode::VaultEmpty => "Vault is empty",
            ErrorCode::UnauthorizedWallet => "Wallet is not authorized to claim",
            ErrorCode::AlreadyClaimed => "Wallet has already claimed tokens",
            ErrorCode::InsufficientAmount => "Insufficient claimable amount",
            ErrorCode::NotVaultOwner => "Only the vault owner can modify the whitelist",
        }
    }
}

/// Why a claim paid nothing.
#[derive(Debug, PartialEq, Eq)]
pub enum ClaimError<E> {
    /// The ledger refused the claim before any transfer was asked for.
    Refused(ErrorCode),
    /// The ledger allowed the claim and the transfer failed; the failure is
    /// handed on as it came.
    Transfer(E),
}

} // verus!
