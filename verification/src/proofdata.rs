use vstd::prelude::*;

verus! {

use crate::witness::clone_bytes;

/// One attested storage entry of an inclusion proof: a 32-byte slot key
/// and the 32-byte big-endian value it holds under the proven root.
pub struct StorageEntry {
    pub key: Vec<u8>,
    pub value: Vec<u8>,
}

/// The mathematical shape of a storage entry.
pub struct StorageEntryV {
    pub key: Seq<u8>,
    pub value: Seq<u8>,
}

impl View for StorageEntry {
    type V = StorageEntryV;

    open spec fn view(&self) -> StorageEntryV {
        StorageEntryV { key: self.key@, value: self.value@ }
    }
}

/// The fields the pipeline reads out of an account/storage inclusion
/// proof: the proven account address, its native balance, and the
/// attested storage entries, in the order the provider returned them.
/// The trie paths themselves stay opaque; only the on-chain verifier
/// checks them.
pub struct InclusionProof {
    /// The proven account's 20 address bytes.
    pub address: Vec<u8>,
    /// The account's native balance, as 32 big-endian bytes.
    pub balance: Vec<u8>,
    /// The attested storage entries.
    pub storage: Vec<StorageEntry>,
}

/// The mathematical shape of an inclusion proof's attested fields.
pub struct InclusionProofV {
    pub address: Seq<u8>,
    pub balance: Seq<u8>,
    pub storage: Seq<StorageEntryV>,
}

impl View for InclusionProof {
    type V = InclusionProofV;

    open spec fn view(&self) -> InclusionProofV {
        InclusionProofV {
            address: self.address@,
            balance: self.balance@,
            storage: Seq::new(self.storage@.len(), |i: int| self.storage@[i]@),
        }
    }
}

/// The field widths every decoded proof has: a 20-byte address, and
/// 32-byte balance, keys and values.
pub open spec fn proof_wf(p: InclusionProofV) -> bool {
    &&& p.address.len() == 20
    &&& p.balance.len() == 32
    &&& forall|i: int|
        0 <= i < p.storage.len() ==> (#[trigger] p.storage[i]).key.len() == 32
            && p.storage[i].value.len() == 32
}

/// What the provider's serialized proof bytes denote, if anything: a
/// pure function of the bytes.  The wrapper below is the only place the
/// crate learns anything about it.
pub uninterp spec fn parsed_account_proof(bytes: Seq<u8>) -> Option<InclusionProofV>;

/// Relies on `serde_json::from_slice` and
/// `alloy_rpc_types_eth::EIP1186AccountProofResponse`: deserialization
/// is a function of the input bytes alone and fails exactly on bytes
/// that do not spell such a response.  The width facts come from the
/// conversion: `Address` is 20 bytes, and ruint's `to_be_bytes::<32>`
/// and `B256` are 32 bytes.
#[verifier::external_body]
pub(crate) fn decode_account_proof(bytes: &Vec<u8>) -> (r: Option<InclusionProof>)
    ensures
        match r {
            Some(p) => parsed_account_proof(bytes@) == Some(p@) && proof_wf(p@),
            None => parsed_account_proof(bytes@) is None,
        },
{
    let resp: alloy_rpc_types_eth::EIP1186AccountProofResponse =
        match serde_json::from_slice(bytes.as_slice()) {
            Ok(p) => p,
            Err(_) => return None,
        };
    Some(InclusionProof {
        address: resp.address.0.to_vec(),
        balance: resp.balance.to_be_bytes::<32>().to_vec(),
        storage: resp.storage_proof.iter().map(|e| StorageEntry {
            key: e.key.as_b256().0.to_vec(),
            value: e.value.to_be_bytes::<32>().to_vec(),
        }).collect(),
    })
}

/// The value of the first attested storage entry, when the proof
/// attests any: the entry the provider returned for the single slot key
/// the query asked about.
pub fn first_storage_value(p: &InclusionProof) -> (r: Option<Vec<u8>>)
    ensures
        match r {
            Some(v) => p@.storage.len() > 0 && v@ == p@.storage[0].value,
            None => p@.storage.len() == 0,
        },
{
    if p.storage.len() > 0 {
        Some(clone_bytes(&p.storage[0].value))
    } else {
        None
    }
}

} // verus!
