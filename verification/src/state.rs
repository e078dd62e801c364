//! The vault and the per-recipient record of what has been paid, with the
//! operations that create a vault and that let its owner edit the whitelist.

use vstd::prelude::*;
use anchor_lang::prelude::Pubkey;
use crate::error::ErrorCode;
use crate::identity::same_key;
use crate::whitelist::{as_map, distinct, remove, removed, upsert, upserted, Entry};
use crate::whitelist::{lemma_removed_distinct, lemma_upserted_distinct, upsert_twice_is_upsert_once};

verus! {

/// A vault: one pooled balance, the recipients it may be paid out to, and the
/// owner who decides on them.
#[derive(Debug, PartialEq, Eq)]
pub struct Vault {
    /// What the vault still holds.
    pub amount: u64,
    /// The recipients and their entitlements.
    pub whitelist: Vec<Entry>,
    /// The owner: the identity that created the vault and the only one that
    /// may change the whitelist.
    pub payer: Pubkey,
}

/// What one recipient has been paid so far. The record lives on when the
/// recipient leaves the whitelist.
#[derive(Clone, Copy, Debug, PartialEq, Eq)]
pub struct ClaimedAmount {
    /// The recipient.
    pub wallet: Pubkey,
    /// The sum of everything ever paid to the recipient.
    pub claimed_amount: u64,
}

/// A vault as a mathematical value.
pub struct VaultView {
    pub amount: u64,
    pub whitelist: Seq<Entry>,
    pub payer: Pubkey,
}

impl VaultView {
    /// No recipient is on the whitelist twice.
    pub open spec fn wf(self) -> bool {
        distinct(self.whitelist)
    }
}

impl View for Vault {
    type V = VaultView;

    open spec fn view(&self) -> VaultView {
        VaultView { amount: self.amount, whitelist: self.whitelist@, payer: self.payer }
    }
}

/// The vault that `user` opens with `amount` in it.
pub open spec fn opened(user: Pubkey, amount: u64) -> VaultView {
    VaultView { amount, whitelist: Seq::empty(), payer: user }
}

/// The vault after `user` asks to give `wallet` the entitlement `amount`:
/// changed only when `user` owns it.
pub open spec fn whitelisted(vault: VaultView, user: Pubkey, wallet: Pubkey, amount: u64) -> VaultView {
    if user == vault.payer {
        VaultView { whitelist: upserted(vault.whitelist, wallet, amount), ..vault }
    } else {
        vault
    }
}

/// The vault after `user` asks to strike `wallet` off: changed only when
/// `user` owns it.
pub open spec fn struck(vault: VaultView, user: Pubkey, wallet: Pubkey) -> VaultView {
    if user == vault.payer {
        VaultView { whitelist: removed(vault.whitelist, wallet), ..vault }
    } else {
        vault
    }
}

/// Asking a second time to give a recipient the same entitlement leaves the
/// vault as the first request left it, whoever asks.
pub proof fn whitelisting_twice_is_whitelisting_once(
    vault: VaultView,
    user: Pubkey,
    wallet: Pubkey,
    amount: u64,
)
    ensures
        whitelisted(whitelisted(vault, user, wallet, amount), user, wallet, amount) == whitelisted(
            vault,
            user,
            wallet,
            amount,
        ),
{
    upsert_twice_is_upsert_once(vault.whitelist, wallet, amount);
}

/// Opens a vault that holds `amount`, is owned by `user` and has nobody on
/// its whitelist.
pub fn initialize(user: Pubkey, amount: u64) -> (vault: Vault)
    ensures
        vault@ == opened(user, amount),
        vault@.wf(),
{
    Vault { amount, whitelist: Vec::new(), payer: user }
}

/// Gives `wallet` the entitlement `amount`, in place of whatever it had.
/// Only the owner may: for any other `user` the vault stays untouched.
pub fn add_to_whitelist(vault: &mut Vault, user: Pubkey, wallet: Pubkey, amount: u64) -> (done:
    Result<(), ErrorCode>)
    ensures
        done == if user == old(vault).payer {
            Ok::<(), ErrorCode>(())
        } else {
            Err::<(), ErrorCode>(ErrorCode::NotVaultOwner)
        },
        final(vault)@ == whitelisted(old(vault)@, user, wallet, amount),
        user == old(vault).payer ==> as_map(final(vault)@.whitelist) == as_map(
            old(vault)@.whitelist,
        ).insert(wallet, amount),
        user != old(vault).payer ==> *final(vault) == *old(vault),
        old(vault)@.wf() ==> final(vault)@.wf(),
{
    if !same_key(&vault.payer, &user) {
        return Err(ErrorCode::NotVaultOwner);
    }
    proof {
        if vault@.wf() {
            lemma_upserted_distinct(vault.whitelist@, wallet, amount);
        }
    }
    upsert(&mut vault.whitelist, wallet, amount);
    Ok(())
}

/// Strikes `wallet` off the whitelist; a wallet that is not on it is no
/// error. Only the owner may: for any other `user` the vault stays untouched.
pub fn remove_from_whitelist(vault: &mut Vault, user: Pubkey, wallet: Pubkey) -> (done: Result<
    (),
    ErrorCode,
>)
    ensures
        done == if user == old(vault).payer {
            Ok::<(), ErrorCode>(())
        } else {
            Err::<(), ErrorCode>(ErrorCode::NotVaultOwner)
        },
        final(vault)@ == struck(old(vault)@, user, wallet),
        user == old(vault).payer ==> as_map(final(vault)@.whitelist) == as_map(
            old(vault)@.whitelist,
        ).remove(wallet),
        user != old(vault).payer ==> *final(vault) == *old(vault),
        old(vault)@.wf() ==> final(vault)@.wf(),
{
    if !same_key(&vault.payer, &user) {
        return Err(ErrorCode::NotVaultOwner);
    }
    proof {
        if vault@.wf() {
            lemma_removed_distinct(vault.whitelist@, wallet);
        }
    }
    remove(&mut vault.whitelist, &wallet);
    Ok(())
}

} // verus!
