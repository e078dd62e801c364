//! Claims: what a recipient is owed, and the payout that settles it.
//!
//! The ledger moves no value itself. A claim is made in three steps:
//! `claimable` says how much is to be transferred or why nothing is, the
//! caller has that amount transferred, and `claim` takes the outcome of
//! the transfer and settles the books, all or nothing.

use vstd::prelude::*;
use anchor_lang::prelude::Pubkey;
use crate::error::{ClaimError, ErrorCode};
use crate::state::{struck, whitelisted, ClaimedAmount, Vault, VaultView};
use crate::whitelist::{entitlement, lemma_recorded_removed, lemma_recorded_upserted, lookup};

verus! {

/// What is still open of an entitlement after `claimed` has been paid, and
/// zero once the payments have reached it.
pub open spec fn claimable_now(entitled: u64, claimed: u64) -> u64 {
    if entitled > claimed {
        (entitled - claimed) as u64
    } else {
        0
    }
}

/// The amount that a claim by `wallet` has to pay, or the first reason, in
/// this order, for which it is refused: the wallet has no entitlement; the
/// vault is empty; the wallet has been paid in full; the vault cannot pay all
/// that is open.
pub open spec fn owed(vault: VaultView, claimed: u64, wallet: Pubkey) -> Result<u64, ErrorCode> {
    let entitled = entitlement(vault.whitelist, wallet);
    let open = claimable_now(entitled, claimed);
    if entitled == 0 {
        Err(ErrorCode::UnauthorizedWallet)
    } else if vault.amount == 0 {
        Err(ErrorCode::VaultEmpty)
    } else if open == 0 {
        Err(ErrorCode::AlreadyClaimed)
    } else if vault.amount < open {
        Err(ErrorCode::InsufficientAmount)
    } else {
        Ok(open)
    }
}

/// What a claim by `wallet` moves out of the vault: the amount owed when the
/// claim is allowed and the transfer went through, and nothing otherwise.
pub open spec fn payout(vault: VaultView, claimed: u64, wallet: Pubkey, transferred: bool) -> u64 {
    match owed(vault, claimed, wallet) {
        Ok(amount) => if transferred {
            amount
        } else {
            0
        },
        Err(_) => 0,
    }
}

/// What a claim by `wallet` answers: the refusal if there is one, else the
/// failure of the transfer if it failed, else the amount paid.
pub open spec fn outcome<E>(
    vault: VaultView,
    claimed: u64,
    wallet: Pubkey,
    transfer: Result<(), E>,
) -> Result<u64, ClaimError<E>> {
    match owed(vault, claimed, wallet) {
        Err(code) => Err(ClaimError::Refused(code)),
        Ok(amount) => match transfer {
            Err(failure) => Err(ClaimError::Transfer(failure)),
            Ok(_) => Ok(amount),
        },
    }
}

/// The vault after `amount` has left it.
pub open spec fn debited(vault: VaultView, amount: u64) -> VaultView {
    VaultView { amount: (vault.amount - amount) as u64, ..vault }
}

/// A paid sum after `amount` more has been paid.
pub open spec fn credited(claimed: u64, amount: u64) -> u64 {
    (claimed + amount) as u64
}

/// An amount that is owed is what is open of the entitlement; it is more than
/// nothing, the vault can pay it, and with it the payments reach the
/// entitlement exactly.
pub proof fn owed_is_exactly_what_is_open(vault: VaultView, claimed: u64, wallet: Pubkey)
    ensures
        owed(vault, claimed, wallet) matches Ok(amount) ==> {
            &&& amount == claimable_now(entitlement(vault.whitelist, wallet), claimed)
            &&& 0 < amount <= vault.amount
            &&& claimed + amount == entitlement(vault.whitelist, wallet)
        },
{
}

/// Once the owner has struck a recipient off, a claim by that recipient is
/// refused as unauthorized, whatever they were paid before, and it moves
/// nothing: their record stays as it is.
pub proof fn struck_recipient_is_refused(
    vault: VaultView,
    claimed: u64,
    wallet: Pubkey,
    transferred: bool,
)
    ensures
        owed(struck(vault, vault.payer, wallet), claimed, wallet) == Err::<u64, ErrorCode>(
            ErrorCode::UnauthorizedWallet,
        ),
        payout(struck(vault, vault.payer, wallet), claimed, wallet, transferred) == 0,
        credited(claimed, payout(struck(vault, vault.payer, wallet), claimed, wallet, transferred))
            == claimed,
{
    lemma_recorded_removed(vault.whitelist, wallet, wallet);
}

/// From an empty vault every claim by a recipient with an entitlement is
/// refused because the vault is empty.
pub proof fn empty_vault_refuses_every_recipient(vault: VaultView, claimed: u64, wallet: Pubkey)
    requires
        vault.amount == 0,
        entitlement(vault.whitelist, wallet) > 0,
    ensures
        owed(vault, claimed, wallet) == Err::<u64, ErrorCode>(ErrorCode::VaultEmpty),
{
}

/// An entitlement is a ceiling: when the owner sets a recipient's
/// entitlement above what they have been paid and the vault can pay the
/// difference, the next claim pays exactly the difference.
pub proof fn raised_entitlement_pays_the_difference(
    vault: VaultView,
    claimed: u64,
    wallet: Pubkey,
    raised: u64,
)
    requires
        claimed < raised,
        raised - claimed <= vault.amount,
    ensures
        owed(whitelisted(vault, vault.payer, wallet, raised), claimed, wallet) == Ok::<
            u64,
            ErrorCode,
        >((raised - claimed) as u64),
{
    lemma_recorded_upserted(vault.whitelist, wallet, raised, wallet);
}

/// Decides on a claim by `wallet` without changing anything: the amount to
/// transfer, or why the claim is refused.
pub fn claimable(vault: &Vault, claimed_amount: &ClaimedAmount, wallet: Pubkey) -> (due: Result<
    u64,
    ErrorCode,
>)
    ensures
        due == owed(vault@, claimed_amount.claimed_amount, wallet),
{
    let entitled = lookup(&vault.whitelist, &wallet);
    if entitled == 0 {
        return Err(ErrorCode::UnauthorizedWallet);
    }
    if vault.amount == 0 {
        return Err(ErrorCode::VaultEmpty);
    }
    let claimed = claimed_amount.claimed_amount;
    if claimed >= entitled {
        return Err(ErrorCode::AlreadyClaimed);
    }
    let remaining = entitled - claimed;
    if vault.amount < remaining {
        return Err(ErrorCode::InsufficientAmount);
    }
    Ok(remaining)
}

/// Settles a claim by `wallet`, given how the transfer of the amount owed
/// went. When the claim is allowed and the transfer succeeded, that amount
/// leaves the vault and is added to the recipient's record. In every other
/// case nothing changes, and the answer is the refusal or, for an allowed
/// claim, the failure of the transfer.
pub fn claim<E>(
    vault: &mut Vault,
    claimed_amount: &mut ClaimedAmount,
    wallet: Pubkey,
    transfer: Result<(), E>,
) -> (paid: Result<u64, ClaimError<E>>)
    ensures
        paid == outcome(old(vault)@, old(claimed_amount).claimed_amount, wallet, transfer),
        final(vault)@ == debited(
            old(vault)@,
            payout(old(vault)@, old(claimed_amount).claimed_amount, wallet, transfer is Ok),
        ),
        final(claimed_amount).claimed_amount == credited(
            old(claimed_amount).claimed_amount,
            payout(old(vault)@, old(claimed_amount).claimed_amount, wallet, transfer is Ok),
        ),
        final(claimed_amount).wallet == old(claimed_amount).wallet,
        paid is Err ==> *final(vault) == *old(vault) && *final(claimed_amount) == *old(
            claimed_amount,
        ),
        paid matches Ok(amount) ==> {
            &&& amount == claimable_now(
                entitlement(old(vault)@.whitelist, wallet),
                old(claimed_amount).claimed_amount,
            )
            &&& amount > 0
            &&& final(vault).amount == old(vault).amount - amount
            &&& final(claimed_amount).claimed_amount == entitlement(old(vault)@.whitelist, wallet)
        },
        final(claimed_amount).claimed_amount >= old(claimed_amount).claimed_amount,
        final(vault).amount <= old(vault).amount,
        old(vault)@.wf() ==> final(vault)@.wf(),
{
    let amount = match claimable(vault, claimed_amount, wallet) {
        Ok(amount) => amount,
        Err(code) => {
            return Err(ClaimError::Refused(code));
        },
    };
    match transfer {
        Err(failure) => Err(ClaimError::Transfer(failure)),
        Ok(_) => {
            vault.amount -= amount;
            claimed_amount.claimed_amount += amount;
            Ok(amount)
        },
    }
}

} // verus!
