use vstd::prelude::*;

verus! {

/// The Keccak-256 digest of a byte string.
///
/// The digest is a pure function of the input bytes, but its value is left
/// unspecified here: the wrapper below is the only place the crate learns
/// anything about it, and contracts elsewhere speak of it only by this
/// name.
pub uninterp spec fn keccak256_of(input: Seq<u8>) -> Seq<u8>;

/// Relies on `alloy_primitives::keccak256`: the digest depends on the
/// input bytes alone and is always 32 bytes wide.
#[verifier::external_body]
pub(crate) fn keccak256_bytes(input: &Vec<u8>) -> (r: Vec<u8>)
    ensures
        r@ == keccak256_of(input@),
        r@.len() == 32,
{
    alloy_primitives::keccak256(input.as_slice()).0.to_vec()
}

} // verus!
