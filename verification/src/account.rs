//! Identities of the parties that hold balances and authorize operations.

use vstd::prelude::*;

verus! {

/// The identity of an account holder or of a contract: a 32-byte key, kept as two
/// big-endian halves, and the kind of party it names.
#[derive(Clone, Copy, Debug, PartialEq, Eq, Structural)]
pub struct AccountId {
    /// `true` for a contract, `false` for an ordinary account.
    pub contract: bool,
    /// The first sixteen bytes of the key.
    pub hi: u128,
    /// The last sixteen bytes of the key.
    pub lo: u128,
}

impl AccountId {
    /// The ordinary account with the given key halves.
    pub fn account(hi: u128, lo: u128) -> (id: AccountId)
        ensures
            id == (AccountId { contract: false, hi, lo }),
    {
        AccountId { contract: false, hi, lo }
    }

    /// The contract with the given key halves.
    pub fn contract(hi: u128, lo: u128) -> (id: AccountId)
        ensures
            id == (AccountId { contract: true, hi, lo }),
    {
        AccountId { contract: true, hi, lo }
    }
}

/// An owner of funds together with a party that may spend on the owner's behalf.
#[derive(Clone, Copy, Debug, PartialEq, Eq, Structural)]
pub struct AccountPair {
    pub owner: AccountId,
    pub spender: AccountId,
}

/// `i` is the first place at which `who` stands in `list`.
pub open spec fn first_at(list: Seq<AccountId>, who: AccountId, i: int) -> bool {
    &&& 0 <= i < list.len()
    &&& list[i] == who
    &&& forall|j: int| 0 <= j < i ==> list[j] != who
}

/// The first place at which `who` stands in `list`, if it stands there at all.
pub fn find_account(list: &Vec<AccountId>, who: AccountId) -> (found: Option<usize>)
    ensures
        match found {
            Some(i) => first_at(list@, who, i as int),
            None => !list@.contains(who),
        },
{
    let mut i: usize = 0;
    while i < list.len()
        invariant
            i <= list.len(),
            forall|j: int| 0 <= j < i ==> list[j] != who,
        decreases list.len() - i,
    {
        if list[i] == who {
            return Some(i);
        }
        i += 1;
    }
    None
}

/// Whether `who` is a member of `list`.
pub fn is_member(list: &Vec<AccountId>, who: AccountId) -> (member: bool)
    ensures
        member == list@.contains(who),
{
    find_account(list, who).is_some()
}

} // verus!
