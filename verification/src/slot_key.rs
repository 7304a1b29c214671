use vstd::prelude::*;

verus! {

use crate::bytesfmt::append_bytes;
use crate::bytesfmt::be_bytes;
use crate::bytesfmt::lemma_be_bytes_len;
use crate::bytesfmt::lemma_be_bytes_val;
use crate::bytesfmt::lemma_pow256_le;
use crate::bytesfmt::pow256;
use crate::bytesfmt::push_be;
use crate::hashing::keccak256_bytes;
use crate::hashing::keccak256_of;

/// The number of bytes in an EVM account address.
pub const ADDRESS_BYTES: usize = 20;

/// The 64-byte Keccak preimage of a mapping-slot key: the holder address
/// left-padded to a 32-byte field, followed by the slot index as a
/// 32-byte big-endian unsigned integer.  The address field comes first,
/// matching the provider's mapping-slot convention byte for byte.
pub open spec fn slot_key_preimage(holder: Seq<u8>, slot_index: u64) -> Seq<u8> {
    Seq::new(12, |i: int| 0u8) + holder + be_bytes(slot_index as nat, 32)
}

/// Derives the storage-slot key of `holder`'s entry in the token's
/// balance mapping at `slot_index`: Keccak-256 of the 64-byte preimage.
/// Total on all 20-byte addresses and all slot indices; no error paths.
pub fn mapping_slot_key(holder: &Vec<u8>, slot_index: u64) -> (r: Vec<u8>)
    requires
        holder@.len() == ADDRESS_BYTES,
    ensures
        r@ == keccak256_of(slot_key_preimage(holder@, slot_index)),
        r@.len() == 32,
{
    let mut preimage: Vec<u8> = vec![0u8; 12];
    append_bytes(&mut preimage, holder.as_slice());
    push_be(&mut preimage, slot_index as u128, 32);
    proof {
        assert(preimage@ =~= slot_key_preimage(holder@, slot_index));
    }
    keccak256_bytes(&preimage)
}

/// Determinism: the derived key is a pure function of holder and index,
/// so equal inputs always yield the identical key, in every run.
pub proof fn lemma_slot_key_deterministic(h1: Seq<u8>, s1: u64, h2: Seq<u8>, s2: u64)
    requires
        h1 == h2,
        s1 == s2,
    ensures
        keccak256_of(slot_key_preimage(h1, s1)) == keccak256_of(slot_key_preimage(h2, s2)),
{
}

/// Injectivity of the preimage layout: distinct (holder, index) pairs
/// always produce distinct 64-byte preimages, so a key collision could
/// only come from a Keccak-256 collision itself.
pub proof fn lemma_slot_key_preimage_injective(h1: Seq<u8>, s1: u64, h2: Seq<u8>, s2: u64)
    requires
        h1.len() == ADDRESS_BYTES,
        h2.len() == ADDRESS_BYTES,
        slot_key_preimage(h1, s1) == slot_key_preimage(h2, s2),
    ensures
        h1 == h2,
        s1 == s2,
{
    let p1 = slot_key_preimage(h1, s1);
    let p2 = slot_key_preimage(h2, s2);
    lemma_be_bytes_len(s1 as nat, 32);
    lemma_be_bytes_len(s2 as nat, 32);
    assert(h1 =~= h2) by {
        assert forall|j: int| 0 <= j < 20 implies h1[j] == h2[j] by {
            assert(p1[12 + j] == h1[j]);
            assert(p2[12 + j] == h2[j]);
        }
    }
    assert(be_bytes(s1 as nat, 32) =~= p1.subrange(32, 64));
    assert(be_bytes(s2 as nat, 32) =~= p2.subrange(32, 64));
    assert(pow256(8) == 0x10000000000000000) by {
        reveal_with_fuel(pow256, 9);
    }
    lemma_pow256_le(8, 32);
    lemma_be_bytes_val(s1 as nat, 32);
    lemma_be_bytes_val(s2 as nat, 32);
}

} // verus!
