//! The SHA-256 digest, from bitcoin_hashes.

use vstd::prelude::*;

verus! {

/// The SHA-256 digest of a byte string.
pub uninterp spec fn sha256_of(data: Seq<u8>) -> Seq<u8>;

/// Relies on `bitcoin_hashes::sha256::Hash::hash`: the SHA-256 digest of
/// `data`, which depends on the bytes alone.
#[verifier::external_body]
pub(crate) fn sha256_digest(data: &[u8]) -> (r: [u8; 32])
    ensures
        r@ == sha256_of(data@),
{
    let digest = <bitcoin_hashes::sha256::Hash as bitcoin_hashes::Hash>::hash(data);
    <bitcoin_hashes::sha256::Hash as bitcoin_hashes::Hash>::into_inner(digest)
}

} // verus!
