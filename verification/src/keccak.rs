use sha3::Digest;
use vstd::prelude::*;

verus! {

/// The Keccak-256 digest of a byte string.
pub uninterp spec fn keccak256(data: Seq<u8>) -> Seq<u8>;

/// Hashes `data` with `sha3::Keccak256` (the original Keccak submission with a
/// 256-bit output). The contract claims that the digest is the value named
/// `keccak256` of the input and that it is 32 bytes long, as the hasher's output
/// type fixes.
#[verifier::external_body]
pub(crate) fn keccak256_digest(data: &[u8]) -> (digest: Vec<u8>)
    ensures
        digest@ == keccak256(data@),
        digest@.len() == 32,
{
    sha3::Keccak256::digest(data).to_vec()
}

} // verus!
