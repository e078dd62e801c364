//! The whitelist: an ordered list of `(recipient, entitlement)` pairs in which
//! the first pair for a recipient is the one that counts.

use vstd::prelude::*;
use anchor_lang::prelude::Pubkey;
use crate::identity::same_key;

verus! {

/// One whitelist entry: a recipient and the most they may ever be paid.
pub type Entry = (Pubkey, u64);

/// Index of the first entry for `wallet`, if there is one.
pub open spec fn position(entries: Seq<Entry>, wallet: Pubkey) -> Option<int>
    decreases entries.len(),
{
    if entries.len() == 0 {
        None
    } else {
        let earlier = position(entries.drop_last(), wallet);
        if earlier is Some {
            earlier
        } else if entries.last().0 == wallet {
            Some(entries.len() - 1)
        } else {
            None
        }
    }
}

/// `i` indexes an entry for `wallet` and no earlier entry is for `wallet`.
pub open spec fn is_first(entries: Seq<Entry>, wallet: Pubkey, i: int) -> bool {
    &&& 0 <= i < entries.len()
    &&& entries[i].0 == wallet
    &&& forall|j: int| 0 <= j < i ==> (#[trigger] entries[j]).0 != wallet
}

/// No entry is for `wallet`.
pub open spec fn absent(entries: Seq<Entry>, wallet: Pubkey) -> bool {
    forall|j: int| 0 <= j < entries.len() ==> (#[trigger] entries[j]).0 != wallet
}

/// `position` finds the first entry for the wallet, or reports that none exists.
pub proof fn lemma_position(entries: Seq<Entry>, wallet: Pubkey)
    ensures
        match position(entries, wallet) {
            Some(i) => is_first(entries, wallet, i),
            None => absent(entries, wallet),
        },
    decreases entries.len(),
{
    if entries.len() > 0 {
        let earlier = entries.drop_last();
        lemma_position(earlier, wallet);
        assert(forall|j: int| 0 <= j < earlier.len() ==> earlier[j] == entries[j]);
        match position(earlier, wallet) {
            Some(i) => {
                assert forall|j: int| 0 <= j < i implies (#[trigger] entries[j]).0 != wallet by {
                    assert(earlier[j].0 != wallet);
                }
            },
            None => {
                assert forall|j: int| 0 <= j < earlier.len() implies (#[trigger] entries[j]).0
                    != wallet by {
                    assert(earlier[j].0 != wallet);
                }
            },
        }
    }
}

/// Whatever index is first for the wallet is the one `position` reports.
pub proof fn lemma_first_is_position(entries: Seq<Entry>, wallet: Pubkey, i: int)
    requires
        is_first(entries, wallet, i),
    ensures
        position(entries, wallet) == Some(i),
{
    lemma_position(entries, wallet);
}

/// What the whitelist records for `wallet`: the amount of its first entry.
pub open spec fn recorded(entries: Seq<Entry>, wallet: Pubkey) -> Option<u64> {
    match position(entries, wallet) {
        Some(i) => Some(entries[i].1),
        None => None,
    }
}

/// Whether `wallet` has an entry.
pub open spec fn listed(entries: Seq<Entry>, wallet: Pubkey) -> bool {
    recorded(entries, wallet) is Some
}

/// The entitlement of `wallet`: the recorded amount, and zero when it has no
/// entry.
pub open spec fn entitlement(entries: Seq<Entry>, wallet: Pubkey) -> u64 {
    match recorded(entries, wallet) {
        Some(amount) => amount,
        None => 0,
    }
}

/// The whitelist read as a mapping from recipient to entitlement.
pub open spec fn as_map(entries: Seq<Entry>) -> Map<Pubkey, u64> {
    Map::new(|wallet: Pubkey| listed(entries, wallet), |wallet: Pubkey| entitlement(entries, wallet))
}

/// No recipient has two entries.
pub open spec fn distinct(entries: Seq<Entry>) -> bool {
    forall|i: int, j: int|
        #![trigger entries[i], entries[j]]
        0 <= i < j < entries.len() ==> entries[i].0 != entries[j].0
}

/// The list after `wallet` is given `amount`: its first entry is overwritten,
/// or a new entry is appended when it has none.
pub open spec fn upserted(entries: Seq<Entry>, wallet: Pubkey, amount: u64) -> Seq<Entry> {
    match position(entries, wallet) {
        Some(i) => entries.update(i, (wallet, amount)),
        None => entries.push((wallet, amount)),
    }
}

/// The test that keeps every entry but those for `wallet`.
pub open spec fn keeps(wallet: Pubkey) -> spec_fn(Entry) -> bool {
    |entry: Entry| entry.0 != wallet
}

/// The list after `wallet` is struck off: every entry for it is gone and the
/// others stay in their order.
pub open spec fn removed(entries: Seq<Entry>, wallet: Pubkey) -> Seq<Entry> {
    entries.filter(keeps(wallet))
}

/// Appending an entry changes what is recorded only for a recipient that had
/// no entry before.
pub proof fn lemma_recorded_push(entries: Seq<Entry>, entry: Entry, wallet: Pubkey)
    ensures
        recorded(entries.push(entry), wallet) == match recorded(entries, wallet) {
            Some(amount) => Some(amount),
            None => if entry.0 == wallet {
                Some(entry.1)
            } else {
                None
            },
        },
{
    let longer = entries.push(entry);
    assert(longer.drop_last() =~= entries);
    lemma_position(entries, wallet);
}

/// After an upsert the recipient has exactly the new amount, and every other
/// recipient has what it had.
pub proof fn lemma_recorded_upserted(
    entries: Seq<Entry>,
    wallet: Pubkey,
    amount: u64,
    other: Pubkey,
)
    ensures
        recorded(upserted(entries, wallet, amount), other) == if other == wallet {
            Some(amount)
        } else {
            recorded(entries, other)
        },
{
    let after = upserted(entries, wallet, amount);
    lemma_position(entries, wallet);
    lemma_position(entries, other);
    match position(entries, wallet) {
        Some(i) => {
            assert(forall|j: int| 0 <= j < entries.len() ==> (#[trigger] after[j]).0 == entries[j].0);
            match position(entries, other) {
                Some(k) => {
                    assert(is_first(after, other, k)) by {
                        assert forall|j: int| 0 <= j < k implies (#[trigger] after[j]).0
                            != other by {
                            assert(entries[j].0 != other);
                        }
                    }
                    lemma_first_is_position(after, other, k);
                },
                None => {
                    lemma_position(after, other);
                    if position(after, other) is Some {
                        let k = position(after, other)->0;
                        assert(entries[k].0 != other);
                    }
                },
            }
        },
        None => {
            lemma_recorded_push(entries, (wallet, amount), other);
        },
    }
}

/// After a removal the recipient has no entry, and every other recipient has
/// what it had.
pub proof fn lemma_recorded_removed(entries: Seq<Entry>, wallet: Pubkey, other: Pubkey)
    ensures
        recorded(removed(entries, wallet), other) == if other == wallet {
            None
        } else {
            recorded(entries, other)
        },
    decreases entries.len(),
{
    reveal(Seq::filter);
    if entries.len() > 0 {
        let earlier = entries.drop_last();
        let last = entries.last();
        lemma_recorded_removed(earlier, wallet, other);
        assert(entries =~= earlier.push(last));
        lemma_recorded_push(earlier, last, other);
        if last.0 != wallet {
            lemma_recorded_push(removed(earlier, wallet), last, other);
        }
    }
}

/// An upsert keeps the recipients distinct.
pub proof fn lemma_upserted_distinct(entries: Seq<Entry>, wallet: Pubkey, amount: u64)
    requires
        distinct(entries),
    ensures
        distinct(upserted(entries, wallet, amount)),
{
    let after = upserted(entries, wallet, amount);
    lemma_position(entries, wallet);
    match position(entries, wallet) {
        Some(i) => {
            assert(forall|j: int| 0 <= j < entries.len() ==> (#[trigger] after[j]).0 == entries[j].0);
            assert forall|a: int, b: int| 0 <= a < b < after.len() implies after[a].0
                != after[b].0 by {
                assert(entries[a].0 != entries[b].0);
            }
        },
        None => {
            assert forall|a: int, b: int| 0 <= a < b < after.len() implies after[a].0
                != after[b].0 by {
                if b < entries.len() {
                    assert(entries[a].0 != entries[b].0);
                } else {
                    assert(entries[a].0 != wallet);
                }
            }
        },
    }
}

/// A removal keeps the recipients distinct.
pub proof fn lemma_removed_distinct(entries: Seq<Entry>, wallet: Pubkey)
    requires
        distinct(entries),
    ensures
        distinct(removed(entries, wallet)),
    decreases entries.len(),
{
    reveal(Seq::filter);
    if entries.len() > 0 {
        let earlier = entries.drop_last();
        let last = entries.last();
        assert forall|a: int, b: int| 0 <= a < b < earlier.len() implies earlier[a].0
            != earlier[b].0 by {
            assert(entries[a].0 != entries[b].0);
        }
        lemma_removed_distinct(earlier, wallet);
        if last.0 != wallet {
            let kept = removed(earlier, wallet);
            assert(absent(earlier, last.0)) by {
                assert forall|j: int| 0 <= j < earlier.len() implies (#[trigger] earlier[j]).0
                    != last.0 by {
                    assert(entries[j].0 != entries[entries.len() - 1].0);
                }
            }
            lemma_position(earlier, last.0);
            lemma_recorded_removed(earlier, wallet, last.0);
            lemma_position(kept, last.0);
            let after = kept.push(last);
            assert forall|a: int, b: int| 0 <= a < b < after.len() implies after[a].0
                != after[b].0 by {
                if b < kept.len() {
                    assert(kept[a].0 != kept[b].0);
                } else {
                    assert(kept[a].0 != last.0);
                }
            }
        }
    }
}

/// Read as a mapping, an upsert is the insertion of the pair: the recipient
/// maps to the new amount and nothing else changes.
pub proof fn upsert_is_insert(entries: Seq<Entry>, wallet: Pubkey, amount: u64)
    ensures
        as_map(upserted(entries, wallet, amount)) == as_map(entries).insert(wallet, amount),
{
    let after = as_map(upserted(entries, wallet, amount));
    let inserted = as_map(entries).insert(wallet, amount);
    assert forall|other: Pubkey| after.dom().contains(other) == inserted.dom().contains(other) by {
        lemma_recorded_upserted(entries, wallet, amount, other);
    }
    assert forall|other: Pubkey| after.dom().contains(other) implies after[other]
        == inserted[other] by {
        lemma_recorded_upserted(entries, wallet, amount, other);
    }
    assert(after =~= inserted);
}

/// Read as a mapping, a removal is the removal of the key: the recipient maps
/// to nothing and nothing else changes.
pub proof fn removal_is_remove(entries: Seq<Entry>, wallet: Pubkey)
    ensures
        as_map(removed(entries, wallet)) == as_map(entries).remove(wallet),
{
    let after = as_map(removed(entries, wallet));
    let without = as_map(entries).remove(wallet);
    assert forall|other: Pubkey| after.dom().contains(other) == without.dom().contains(other) by {
        lemma_recorded_removed(entries, wallet, other);
    }
    assert forall|other: Pubkey| after.dom().contains(other) implies after[other]
        == without[other] by {
        lemma_recorded_removed(entries, wallet, other);
    }
    assert(after =~= without);
}

/// Giving a recipient the same amount a second time leaves the list as the
/// first time left it.
pub proof fn upsert_twice_is_upsert_once(entries: Seq<Entry>, wallet: Pubkey, amount: u64)
    ensures
        upserted(upserted(entries, wallet, amount), wallet, amount) == upserted(
            entries,
            wallet,
            amount,
        ),
{
    let once = upserted(entries, wallet, amount);
    lemma_position(entries, wallet);
    let at = match position(entries, wallet) {
        Some(i) => i,
        None => entries.len() as int,
    };
    assert(is_first(once, wallet, at)) by {
        assert forall|j: int| 0 <= j < at implies (#[trigger] once[j]).0 != wallet by {
            assert(entries[j].0 != wallet);
        }
    }
    lemma_first_is_position(once, wallet, at);
    assert(upserted(once, wallet, amount) =~= once);
}

/// Finds the first entry for `wallet`.
pub fn find(entries: &Vec<Entry>, wallet: &Pubkey) -> (found: Option<usize>)
    ensures
        match found {
            Some(i) => i < entries.len() && position(entries@, *wallet) == Some(i as int),
            None => position(entries@, *wallet) is None,
        },
{
    let mut i: usize = 0;
    while i < entries.len()
        invariant
            i <= entries.len(),
            forall|j: int| 0 <= j < i ==> (#[trigger] entries@[j]).0 != *wallet,
        decreases entries.len() - i,
    {
        if same_key(&entries[i].0, wallet) {
            proof {
                lemma_first_is_position(entries@, *wallet, i as int);
            }
            return Some(i);
        }
        i += 1;
    }
    proof {
        lemma_position(entries@, *wallet);
    }
    None
}

/// Reads the entitlement of `wallet`: zero when it has no entry.
pub fn lookup(entries: &Vec<Entry>, wallet: &Pubkey) -> (amount: u64)
    ensures
        amount == entitlement(entries@, *wallet),
{
    match find(entries, wallet) {
        Some(i) => entries[i].1,
        None => 0,
    }
}

/// Gives `wallet` the entitlement `amount`, replacing whatever it had.
pub fn upsert(entries: &mut Vec<Entry>, wallet: Pubkey, amount: u64)
    ensures
        final(entries)@ == upserted(old(entries)@, wallet, amount),
        as_map(final(entries)@) == as_map(old(entries)@).insert(wallet, amount),
{
    proof {
        upsert_is_insert(entries@, wallet, amount);
    }
    match find(entries, &wallet) {
        Some(i) => {
            entries.set(i, (wallet, amount));
        },
        None => {
            entries.push((wallet, amount));
        },
    }
}

/// Strikes `wallet` off the list. A wallet without an entry leaves the list
/// as it was.
pub fn remove(entries: &mut Vec<Entry>, wallet: &Pubkey)
    ensures
        final(entries)@ == removed(old(entries)@, *wallet),
        as_map(final(entries)@) == as_map(old(entries)@).remove(*wallet),
{
    let mut kept: Vec<Entry> = Vec::new();
    let mut i: usize = 0;
    proof {
        removal_is_remove(entries@, *wallet);
        reveal(Seq::filter);
        assert(entries@.take(0) =~= Seq::<Entry>::empty());
    }
    while i < entries.len()
        invariant
            i <= entries.len(),
            kept@ == removed(entries@.take(i as int), *wallet),
        decreases entries.len() - i,
    {
        let entry = entries[i];
        proof {
            reveal(Seq::filter);
            let longer = entries@.take(i + 1);
            assert(longer.drop_last() =~= entries@.take(i as int));
            assert(longer.last() == entry);
        }
        if !same_key(&entry.0, wallet) {
            kept.push(entry);
        }
        i += 1;
    }
    proof {
        assert(entries@.take(i as int) =~= entries@);
    }
    *entries = kept;
}

} // verus!
