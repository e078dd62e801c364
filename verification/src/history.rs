//! What holds of a vault over its whole life: the books of one vault, the
//! operations that can be applied to them, and what any sequence of
//! operations preserves.

use vstd::prelude::*;
use anchor_lang::prelude::Pubkey;
use crate::claim::{credited, debited, payout};
use crate::state::{struck, whitelisted, VaultView};
use crate::whitelist::{lemma_removed_distinct, lemma_upserted_distinct};

verus! {

/// The books of one vault: the vault itself and, for each recipient, the sum
/// of what they have been paid. A recipient without a record has been paid
/// nothing.
pub struct Books {
    pub vault: VaultView,
    pub claimed: Map<Pubkey, u64>,
}

/// One operation on the books, with everything that decides how it ends.
pub enum Operation {
    /// `user` asks to give `wallet` the entitlement `amount`.
    AddToWhitelist { user: Pubkey, wallet: Pubkey, amount: u64 },
    /// `user` asks to strike `wallet` off the whitelist.
    RemoveFromWhitelist { user: Pubkey, wallet: Pubkey },
    /// `wallet` claims; `transferred` tells whether the transfer, if one is
    /// asked for, goes through.
    Claim { wallet: Pubkey, transferred: bool },
}

/// What `wallet` has been paid so far.
pub open spec fn paid_to(claimed: Map<Pubkey, u64>, wallet: Pubkey) -> u64 {
    if claimed.dom().contains(wallet) {
        claimed[wallet]
    } else {
        0
    }
}

/// What the operation moves out of the vault.
pub open spec fn moved(books: Books, op: Operation) -> u64 {
    match op {
        Operation::Claim { wallet, transferred } => payout(
            books.vault,
            paid_to(books.claimed, wallet),
            wallet,
            transferred,
        ),
        _ => 0,
    }
}

/// The books after the operation.
pub open spec fn step(books: Books, op: Operation) -> Books {
    match op {
        Operation::AddToWhitelist { user, wallet, amount } => Books {
            vault: whitelisted(books.vault, user, wallet, amount),
            ..books
        },
        Operation::RemoveFromWhitelist { user, wallet } => Books {
            vault: struck(books.vault, user, wallet),
            ..books
        },
        Operation::Claim { wallet, transferred } => {
            let amount = moved(books, op);
            if amount == 0 {
                books
            } else {
                Books {
                    vault: debited(books.vault, amount),
                    claimed: books.claimed.insert(
                        wallet,
                        credited(paid_to(books.claimed, wallet), amount),
                    ),
                }
            }
        },
    }
}

/// The books after the operations, applied in their order.
pub open spec fn run(books: Books, ops: Seq<Operation>) -> Books
    decreases ops.len(),
{
    if ops.len() == 0 {
        books
    } else {
        step(run(books, ops.drop_last()), ops.last())
    }
}

/// The sum of what the operations, applied in their order, move out of the
/// vault.
pub open spec fn total_moved(books: Books, ops: Seq<Operation>) -> nat
    decreases ops.len(),
{
    if ops.len() == 0 {
        0
    } else {
        total_moved(books, ops.drop_last()) + moved(
            run(books, ops.drop_last()),
            ops.last(),
        ) as nat
    }
}

/// Whatever operations are applied, the vault holds at the end what it held
/// at the start less everything that was paid out, and never less than
/// nothing: the payouts together are at most what it held at the start.
pub proof fn balance_is_start_less_payouts(books: Books, ops: Seq<Operation>)
    ensures
        run(books, ops).vault.amount == books.vault.amount - total_moved(books, ops),
        total_moved(books, ops) <= books.vault.amount,
    decreases ops.len(),
{
    if ops.len() > 0 {
        balance_is_start_less_payouts(books, ops.drop_last());
    }
}

/// Whatever operations are applied, no recipient's paid sum ever goes down.
pub proof fn claimed_never_decreases(books: Books, ops: Seq<Operation>, wallet: Pubkey)
    ensures
        paid_to(run(books, ops).claimed, wallet) >= paid_to(books.claimed, wallet),
    decreases ops.len(),
{
    if ops.len() > 0 {
        claimed_never_decreases(books, ops.drop_last(), wallet);
    }
}

/// Whatever operations are applied, the vault keeps its owner.
pub proof fn owner_never_changes(books: Books, ops: Seq<Operation>)
    ensures
        run(books, ops).vault.payer == books.vault.payer,
    decreases ops.len(),
{
    if ops.len() > 0 {
        owner_never_changes(books, ops.drop_last());
    }
}

/// Whatever operations are applied to a whitelist without a recipient twice,
/// none is on it twice afterwards.
pub proof fn whitelist_stays_distinct(books: Books, ops: Seq<Operation>)
    requires
        books.vault.wf(),
    ensures
        run(books, ops).vault.wf(),
    decreases ops.len(),
{
    if ops.len() > 0 {
        whitelist_stays_distinct(books, ops.drop_last());
        let before = run(books, ops.drop_last());
        match ops.last() {
            Operation::AddToWhitelist { user, wallet, amount } => {
                lemma_upserted_distinct(before.vault.whitelist, wallet, amount);
            },
            Operation::RemoveFromWhitelist { user, wallet } => {
                lemma_removed_distinct(before.vault.whitelist, wallet);
            },
            Operation::Claim { .. } => {},
        }
    }
}

} // verus!
