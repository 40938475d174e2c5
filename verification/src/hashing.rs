//! SHA-256, as computed by the two hashing crates the house relies on.

use sha2::Digest;
use vstd::prelude::*;

verus! {

/// The SHA-256 digest that `bitcoin::hashes` computes for `data`.
pub uninterp spec fn bitcoin_sha256(data: Seq<u8>) -> Seq<u8>;

/// The SHA-256 digest that `sha2` computes for `data`.
pub uninterp spec fn sha2_sha256(data: Seq<u8>) -> Seq<u8>;

/// Calls `bitcoin::hashes::sha256::Hash::hash` and hands out the 32 bytes of
/// the digest. The digest depends on `data` alone; nothing else is claimed.
#[verifier::external_body]
pub(crate) fn roll_digest(data: &[u8]) -> (digest: [u8; 32])
    ensures
        digest@ == bitcoin_sha256(data@),
{
    let digest = <bitcoin::hashes::sha256::Hash as bitcoin::hashes::Hash>::hash(data);
    bitcoin::hashes::Hash::to_byte_array(digest)
}

/// Calls `sha2::Sha256::digest` and hands out the 32 bytes of the digest.
/// The digest depends on `data` alone; nothing else is claimed.
#[verifier::external_body]
pub(crate) fn commitment_digest(data: &[u8]) -> (digest: [u8; 32])
    ensures
        digest@ == sha2_sha256(data@),
{
    sha2::Sha256::digest(data).into()
}

} // verus!
