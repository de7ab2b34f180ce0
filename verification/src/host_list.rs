//! Lists of identifiers that the host keeps: the list of the challenges of
//! one user, as the host's vector of numbers.

use vstd::prelude::*;

verus! {

/// The vector of the host, a handle to a list that the host keeps.
#[verifier::external_type_specification]
#[verifier::external_body]
#[verifier::reject_recursive_types(T)]
pub struct ExHostVec<T>(soroban_sdk::Vec<T>);

/// The identifiers that the list holds, first to last.
pub uninterp spec fn host_ids(list: soroban_sdk::Vec<u32>) -> Seq<u32>;

/// The number of entries that the host keeps in the list.
pub uninterp spec fn host_len(list: soroban_sdk::Vec<u32>) -> nat;

/// The longest list that is searched or added to. The host meters a search
/// and an addition by the length of the list; what a list of this length
/// costs is far below the budget of a fresh environment.
pub const LIST_LIMIT: u32 = 4096;

/// Calls `soroban_sdk::Vec::len`, which asks the host for the number of
/// entries of the list.
#[verifier::external_body]
pub(crate) fn list_len(list: &soroban_sdk::Vec<u32>) -> (length: u32)
    ensures
        length == host_len(*list),
{
    list.len()
}

/// Calls `soroban_sdk::Vec::contains`, which has the host look for the first
/// entry that equals the identifier: the answer is whether the identifier is
/// among those that the list holds. The host meters the search by the length
/// of the list, so only a list within the limit is admitted.
#[verifier::external_body]
pub(crate) fn list_contains(list: &soroban_sdk::Vec<u32>, id: u32) -> (found: bool)
    requires
        host_len(*list) <= 4096,
    ensures
        found == host_ids(*list).contains(id),
{
    list.contains(&id)
}

/// Calls `soroban_sdk::Vec::push_back`, which has the host put the identifier
/// behind the last entry: the list holds what it held and then the
/// identifier, and is one entry longer. The host meters the addition by the
/// length of the list, so only a list within the limit is admitted.
#[verifier::external_body]
pub(crate) fn list_push_back(list: &mut soroban_sdk::Vec<u32>, id: u32)
    requires
        host_len(*old(list)) <= 4096,
    ensures
        host_ids(*final(list)) == host_ids(*old(list)).push(id),
        host_len(*final(list)) == host_len(*old(list)) + 1,
{
    list.push_back(id)
}

} // verus!
