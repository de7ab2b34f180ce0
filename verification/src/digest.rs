//! Identifiers of challenges that are derived from a counter by hashing.

use vstd::prelude::*;

verus! {

/// The host environment of a contract invocation, which computes the hashes.
#[verifier::external_type_specification]
#[verifier::external_body]
pub struct ExEnv(soroban_sdk::Env);

/// The SHA-256 digest of `data`.
pub uninterp spec fn sha256_digest(data: Seq<u8>) -> Seq<u8>;

/// The four bytes of `n`, most significant first.
pub open spec fn be_bytes(n: u32) -> Seq<u8> {
    seq![
        (n / 16777216) as u8,
        ((n / 65536) % 256) as u8,
        ((n / 256) % 256) as u8,
        (n % 256) as u8,
    ]
}

/// The identifier of the challenge that is created when `count` challenges
/// were created before it: the SHA-256 digest of the count's four bytes.
pub open spec fn challenge_digest(count: u32) -> Seq<u8> {
    sha256_digest(be_bytes(count))
}

/// The four bytes of `n`, most significant first.
pub fn be_bytes_of(n: u32) -> (bytes: Vec<u8>)
    ensures
        bytes@ == be_bytes(n),
{
    let mut bytes: Vec<u8> = Vec::new();
    bytes.push((n / 16777216) as u8);
    bytes.push(((n / 65536) % 256) as u8);
    bytes.push(((n / 256) % 256) as u8);
    bytes.push((n % 256) as u8);
    assert(bytes@ =~= be_bytes(n));
    bytes
}

/// Calls `soroban_sdk::crypto::Crypto::sha256` on the bytes of `data`, through
/// `soroban_sdk::Bytes::from_slice` and `Hash::to_array`. The host computes
/// the SHA-256 digest of the bytes it is given; the result is taken to be
/// that digest, the same for the same bytes in every environment. The host
/// meters the copy of the bytes and the hash by their length, so only short
/// data is admitted: what sixty-four bytes cost is far below the budget of a
/// fresh environment. The host still ends the invocation where earlier calls
/// have used its budget up.
#[verifier::external_body]
fn sha256(env: &soroban_sdk::Env, data: &Vec<u8>) -> (digest: [u8; 32])
    requires
        data@.len() <= 64,
    ensures
        digest@ == sha256_digest(data@),
{
    env.crypto().sha256(&soroban_sdk::Bytes::from_slice(env, data.as_slice())).to_array()
}

/// The identifier of the challenge that is created when `count` challenges
/// were created before it.
pub fn derive_challenge_id(env: &soroban_sdk::Env, count: u32) -> (id: [u8; 32])
    ensures
        id@ == challenge_digest(count),
{
    let bytes = be_bytes_of(count);
    sha256(env, &bytes)
}

/// Whether the two identifiers are the same.
pub fn same_id(a: &[u8; 32], b: &[u8; 32]) -> (same: bool)
    ensures
        same == (a@ == b@),
{
    let mut i: usize = 0;
    while i < 32
        invariant
            i <= 32,
            forall|j: int| 0 <= j < i ==> a[j] == b[j],
        decreases 32 - i,
    {
        if a[i] != b[i] {
            return false;
        }
        i += 1;
    }
    assert(a@ =~= b@);
    true
}

} // verus!
