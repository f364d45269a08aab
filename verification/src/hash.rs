//! The 256-bit cryptographic hash every commitment and tree node is built
//! from, behind a trusted wrapper around the outside implementation.
use sha3::Digest;
use vstd::prelude::*;

verus! {

/// The Keccak-256 digest of a byte sequence. The digest is a function of the
/// input bytes alone; it is given a name rather than a definition, and the
/// wrapper below ties the name to the outside implementation.
pub uninterp spec fn keccak256(data: Seq<u8>) -> Seq<u8>;

/// Relies on sha3's Keccak256 (through the Digest trait's one-shot `digest`):
/// the Keccak-256 hash of the input, 32 bytes, depending on the input alone.
#[verifier::external_body]
pub(crate) fn keccak256_bytes(data: &[u8]) -> (r: [u8; 32])
    ensures
        r@ == keccak256(data@),
{
    sha3::Keccak256::digest(data).into()
}

} // verus!
