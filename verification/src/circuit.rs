use vstd::prelude::*;

verus! {

use vstd::utf8::decode_utf8;
use vstd::utf8::encode_utf8;
use vstd::utf8::valid_utf8;

use crate::amount::amount_from_be_bytes;
use crate::amount::amount_limit;
use crate::bytesfmt::be_val;
use crate::errors::PipelineError;
use crate::errors::Stage;
use crate::message::build_zk_msg;
use crate::message::encode_auth_message;
use crate::message::spec_enc_mint_message;
use crate::proofdata::decode_account_proof;
use crate::proofdata::first_storage_value;
use crate::proofdata::parsed_account_proof;
use crate::proofdata::InclusionProofV;
use crate::witness::clone_bytes;
use crate::witness::utf8_to_string;
use crate::witness::views_of;
use crate::witness::Witness;
use crate::witness::WitnessV;

/// Which deployed variant of the transform runs: where the minted
/// amount comes from.  A build-time choice per deployment, not a
/// runtime branch.
#[derive(Clone, Copy, Debug, PartialEq, Eq, Structural)]
pub enum CircuitVariant {
    /// The amount is the proven account's native balance.
    NativeBalance,
    /// The amount is the value of the pre-derived balance-mapping slot.
    TokenStorageSlot,
}

/// Build-time configuration of the proving transform: the deployed
/// variant, and the token contract every mint call is bound to, an
/// explicit deployment value rather than a literal in the logic.
pub struct CircuitConfig {
    /// The deployed variant.
    pub variant: CircuitVariant,
    /// The token contract address the mint call executes against.
    pub token_contract: String,
}

/// The witness arity each variant expects: state proof and destination
/// identity, plus the source-token address for the storage-slot
/// variant.
pub open spec fn expected_witness_count(v: CircuitVariant) -> nat {
    match v {
        CircuitVariant::NativeBalance => 2,
        CircuitVariant::TokenStorageSlot => 3,
    }
}

/// Runtime counterpart of [`expected_witness_count`].
pub fn witness_count(v: &CircuitVariant) -> (r: usize)
    ensures
        r == expected_witness_count(*v),
{
    match v {
        CircuitVariant::NativeBalance => 2,
        CircuitVariant::TokenStorageSlot => 3,
    }
}

/// The 32-byte big-endian value a variant extracts from a decoded
/// proof: the account's native balance, or the value of the first
/// attested storage entry — the one the query asked about.
pub open spec fn spec_extracted_value(v: CircuitVariant, p: InclusionProofV) -> Option<Seq<u8>> {
    match v {
        CircuitVariant::NativeBalance => Some(p.balance),
        CircuitVariant::TokenStorageSlot => if p.storage.len() > 0 {
            Some(p.storage[0].value)
        } else {
            None
        },
    }
}

/// The proving transform as a function: exactly what [`circuit`]
/// returns on every configuration and witness sequence.  The checks
/// run in this order: arity first, before anything is decoded; then
/// the proof decode; then the amount bound; then the destination.
pub open spec fn spec_circuit(cfg: CircuitConfig, ws: Seq<WitnessV>) -> Result<
    Seq<u8>,
    PipelineError,
> {
    if ws.len() != expected_witness_count(cfg.variant) {
        Err(
            PipelineError::ConfigurationError {
                expected: expected_witness_count(cfg.variant) as usize,
                got: ws.len() as usize,
            },
        )
    } else if !(ws[0] is StateProof) {
        Err(PipelineError::DecodeError { stage: Stage::ProvingTransform })
    } else {
        match parsed_account_proof(ws[0]->StateProof_proof) {
            None => Err(PipelineError::DecodeError { stage: Stage::ProvingTransform }),
            Some(p) => match spec_extracted_value(cfg.variant, p) {
                None => Err(PipelineError::DecodeError { stage: Stage::ProvingTransform }),
                Some(value) => if be_val(value) >= amount_limit() {
                    Err(PipelineError::OverflowError)
                } else if !(ws[1] is RawData) {
                    Err(PipelineError::DecodeError { stage: Stage::ProvingTransform })
                } else if !(valid_utf8(ws[1]->RawData_data) && ws[1]->RawData_data.len()
                    < 0x100000000) {
                    Err(PipelineError::DecodeError { stage: Stage::ProvingTransform })
                } else {
                    Ok(
                        spec_enc_mint_message(
                            cfg.token_contract@,
                            decode_utf8(ws[1]->RawData_data),
                            be_val(value) as u128,
                        ),
                    )
                },
            },
        }
    }
}

/// The pure verification-and-message-building transform: witness
/// bundle in, canonically serialized authorization message out.  No
/// ambient input, clock or randomness: the output is a function of the
/// configuration and the witnesses alone, stated by [`spec_circuit`].
///
/// A bundle of unexpected arity is rejected as a configuration error
/// before any decoding; malformed proof bytes, a missing storage
/// entry and a non-UTF-8 destination fail closed as decode errors; a
/// value of 128 bits or more fails as an overflow, never truncated.
pub fn circuit(cfg: &CircuitConfig, witnesses: &Vec<Witness>) -> (r: Result<Vec<u8>, PipelineError>)
    requires
        encode_utf8(cfg.token_contract@).len() < 0x100000000,
    ensures
        match r {
            Ok(bytes) => spec_circuit(*cfg, views_of(witnesses@)) matches Ok(s) && bytes@ == s,
            Err(e) => spec_circuit(*cfg, views_of(witnesses@)) == Err::<Seq<u8>, PipelineError>(e),
        },
        witnesses@.len() != expected_witness_count(cfg.variant) ==> r == Err::<
            Vec<u8>,
            PipelineError,
        >(
            PipelineError::ConfigurationError {
                expected: expected_witness_count(cfg.variant) as usize,
                got: witnesses@.len() as usize,
            },
        ),
{
    let expected = witness_count(&cfg.variant);
    if witnesses.len() != expected {
        return Err(
            PipelineError::ConfigurationError { expected, got: witnesses.len() },
        );
    }
    proof {
        assert(views_of(witnesses@)[0] == witnesses@[0]@);
        assert(views_of(witnesses@)[1] == witnesses@[1]@);
    }
    let proof_bytes = match &witnesses[0] {
        Witness::StateProof { proof, .. } => proof,
        Witness::RawData { .. } => {
            return Err(PipelineError::DecodeError { stage: Stage::ProvingTransform });
        },
    };
    let parsed = match decode_account_proof(proof_bytes) {
        Some(p) => p,
        None => {
            return Err(PipelineError::DecodeError { stage: Stage::ProvingTransform });
        },
    };
    let value: Vec<u8> = match cfg.variant {
        CircuitVariant::NativeBalance => clone_bytes(&parsed.balance),
        CircuitVariant::TokenStorageSlot => match first_storage_value(&parsed) {
            Some(v) => v,
            None => {
                return Err(PipelineError::DecodeError { stage: Stage::ProvingTransform });
            },
        },
    };
    let amt = match amount_from_be_bytes(&value) {
        Ok(a) => a,
        Err(e) => {
            return Err(e);
        },
    };
    let data = match &witnesses[1] {
        Witness::RawData { data } => data,
        Witness::StateProof { .. } => {
            return Err(PipelineError::DecodeError { stage: Stage::ProvingTransform });
        },
    };
    if (data.len() as u128) >= 0x100000000u128 {
        return Err(PipelineError::DecodeError { stage: Stage::ProvingTransform });
    }
    let recipient = match utf8_to_string(data) {
        Some(s) => s,
        None => {
            return Err(PipelineError::DecodeError { stage: Stage::ProvingTransform });
        },
    };
    let msg = build_zk_msg(recipient, amt, cfg.token_contract.clone());
    let bytes = encode_auth_message(&msg);
    Ok(bytes)
}

} // verus!
