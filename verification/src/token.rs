//! What the token ledgers share: the reasons for which a token operation is
//! refused, and balances kept by account.

use vstd::prelude::*;
use crate::account::AccountId;
use crate::arith::fits_i128;
use crate::table::{
    Table, TableKey, entries_map, first_entry, has_entry, lemma_first_entry, lemma_has_first,
};

verus! {

/// Why an operation on the token was refused.
#[derive(Clone, Copy, Debug, PartialEq, Eq, Structural)]
pub enum TokenError {
    NotAuthorized,
    InsufficientBalance,
    InsufficientAllowance,
    InvalidAmount,
    InvalidAddress,
    AlreadyInitialized,
    NotInitialized,
    NotMinter,
    InvalidRewardType,
    RewardConfigNotSet,
    /// A result that cannot be held in the integer type of its field.
    ArithmeticError,
}

impl TokenError {
    /// The number under which the error is reported.
    pub fn code(&self) -> (code: u32)
        ensures
            code == match *self {
                TokenError::NotAuthorized => 1u32,
                TokenError::InsufficientBalance => 2u32,
                TokenError::InsufficientAllowance => 3u32,
                TokenError::InvalidAmount => 4u32,
                TokenError::InvalidAddress => 5u32,
                TokenError::AlreadyInitialized => 6u32,
                TokenError::NotInitialized => 7u32,
                TokenError::NotMinter => 8u32,
                TokenError::InvalidRewardType => 9u32,
                TokenError::RewardConfigNotSet => 10u32,
                TokenError::ArithmeticError => 11u32,
            },
    {
        match self {
            TokenError::NotAuthorized => 1,
            TokenError::InsufficientBalance => 2,
            TokenError::InsufficientAllowance => 3,
            TokenError::InvalidAmount => 4,
            TokenError::InvalidAddress => 5,
            TokenError::AlreadyInitialized => 6,
            TokenError::NotInitialized => 7,
            TokenError::NotMinter => 8,
            TokenError::InvalidRewardType => 9,
            TokenError::RewardConfigNotSet => 10,
            TokenError::ArithmeticError => 11,
        }
    }
}

/// The amount kept under `key`; nothing where none is kept.
pub open spec fn amount_at<K>(amounts: Map<K, i128>, key: K) -> i128 {
    if amounts.dom().contains(key) {
        amounts[key]
    } else {
        0
    }
}

/// The sum of the amounts in `entries`.
pub open spec fn amount_sum<K>(entries: Seq<(K, i128)>) -> int
    decreases entries.len(),
{
    if entries.len() == 0 {
        0
    } else {
        amount_sum(entries.drop_last()) + entries.last().1
    }
}

/// No two of the `entries` stand under the same key.
pub open spec fn distinct_keys<K>(entries: Seq<(K, i128)>) -> bool {
    forall|i: int, j: int|
        0 <= i < entries.len() && 0 <= j < entries.len() && i != j ==> entries[i].0 != entries[j].0
}

/// Rewriting an entry changes the sum by the difference of the amounts.
pub proof fn lemma_amount_update<K>(entries: Seq<(K, i128)>, i: int, entry: (K, i128))
    requires
        0 <= i < entries.len(),
    ensures
        amount_sum(entries.update(i, entry)) == amount_sum(entries) - entries[i].1 + entry.1,
    decreases entries.len(),
{
    if i == entries.len() - 1 {
        assert(entries.update(i, entry).drop_last() =~= entries.drop_last());
    } else {
        lemma_amount_update(entries.drop_last(), i, entry);
        assert(entries.update(i, entry).drop_last() =~= entries.drop_last().update(i, entry));
    }
}

/// What keeping `value` under `key` does to the entries of a table: the sum
/// of the amounts changes by the difference to what was kept under the key,
/// and keys that were distinct stay so.
pub proof fn lemma_amount_kept<K>(
    before: Seq<(K, i128)>,
    after: Seq<(K, i128)>,
    key: K,
    value: i128,
)
    requires
        forall|i: int| first_entry(before, key, i) ==> after == before.update(i, (key, value)),
        !has_entry(before, key) ==> after == before.push((key, value)),
    ensures
        amount_sum(after) == amount_sum(before) - amount_at(entries_map(before), key) + value,
        distinct_keys(before) ==> distinct_keys(after),
{
    if has_entry(before, key) {
        let w = choose|w: int| 0 <= w < before.len() && before[w].0 == key;
        lemma_has_first(before, key, w);
        let i = choose|i: int| first_entry(before, key, i);
        lemma_first_entry(before, key, i);
        lemma_amount_update(before, i, (key, value));
        if distinct_keys(before) {
            assert forall|a: int, b: int|
                0 <= a < after.len() && 0 <= b < after.len() && a != b implies after[a].0
                != after[b].0 by {
                assert(before[a].0 != before[b].0);
            }
        }
    } else {
        assert(before.push((key, value)).drop_last() =~= before);
        if distinct_keys(before) {
            assert forall|a: int, b: int|
                0 <= a < after.len() && 0 <= b < after.len() && a != b implies after[a].0
                != after[b].0 by {
                if a < before.len() && b < before.len() {
                    assert(before[a].0 != before[b].0);
                }
            }
        }
    }
}

/// The balances after `amount` has moved from `from` to `to`.
pub open spec fn moved(balances: Map<AccountId, i128>, from: AccountId, to: AccountId, amount: i128)
    -> Map<AccountId, i128> {
    let debited = balances.insert(from, (amount_at(balances, from) - amount) as i128);
    debited.insert(to, (amount_at(debited, to) + amount) as i128)
}

/// Why a move of `amount` from `from` to `to` is refused, if it is.
pub open spec fn move_refusal(
    balances: Map<AccountId, i128>,
    from: AccountId,
    to: AccountId,
    amount: i128,
) -> Option<TokenError> {
    if amount_at(balances, from) < amount {
        Some(TokenError::InsufficientBalance)
    } else if from != to && !fits_i128(amount_at(balances, to) + amount) {
        Some(TokenError::ArithmeticError)
    } else {
        None
    }
}

/// The amount kept under `key`; nothing where none is kept.
pub fn amount_of<K: TableKey>(amounts: &Table<K, i128>, key: K) -> (amount: i128)
    ensures
        amount == amount_at(amounts@, key),
{
    match amounts.get(key) {
        Some(amount) => amount,
        None => 0,
    }
}

/// Moves `amount`, which is positive, from `from` to `to`. A refused move
/// changes nothing.
pub fn move_amount(balances: &mut Table<AccountId, i128>, from: AccountId, to: AccountId, amount: i128)
    -> (result: Result<(), TokenError>)
    requires
        amount > 0,
    ensures
        match move_refusal(old(balances)@, from, to, amount) {
            Some(e) => result == Err::<(), TokenError>(e) && *final(balances) == *old(balances),
            None => result is Ok && final(balances)@ == moved(old(balances)@, from, to, amount),
        },
        amount_sum(final(balances).entries@) == amount_sum(old(balances).entries@),
        distinct_keys(old(balances).entries@) ==> distinct_keys(final(balances).entries@),
{
    let from_balance = amount_of(balances, from);
    if from_balance < amount {
        return Err(TokenError::InsufficientBalance);
    }
    let debited = from_balance - amount;
    let to_balance = if to == from {
        debited
    } else {
        amount_of(balances, to)
    };
    let credited = match to_balance.checked_add(amount) {
        Some(credited) => credited,
        None => {
            return Err(TokenError::ArithmeticError);
        },
    };
    let ghost before = balances.entries@;
    balances.set(from, debited);
    let ghost between = balances.entries@;
    balances.set(to, credited);
    proof {
        lemma_amount_kept(before, between, from, debited);
        lemma_amount_kept(between, balances.entries@, to, credited);
    }
    Ok(())
}

} // verus!
