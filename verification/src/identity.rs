//! Identities of owners and recipients.
//!
//! An identity is an `anchor_lang::prelude::Pubkey`. Nothing here looks inside
//! one: the ledger only ever asks whether two of them are the same.

use vstd::prelude::*;
use anchor_lang::prelude::Pubkey;

verus! {

/// `anchor_lang::prelude::Pubkey`, taken as an opaque value: 32 bytes that
/// name an account. Two values are equal exactly when their bytes are.
#[verifier::external_type_specification]
#[verifier::external_body]
pub struct ExPubkey(anchor_lang::prelude::Pubkey);

/// Calls `Pubkey`'s `PartialEq::eq`, which the key type derives over its 32
/// bytes. Trusted: the call answers `true` exactly when both arguments are
/// the same identity.
#[verifier::external_body]
pub(crate) fn same_key(a: &Pubkey, b: &Pubkey) -> (same: bool)
    ensures
        same == (*a == *b),
{
    a == b
}

} // verus!
