use vstd::prelude::*;

verus! {

use vstd::utf8::decode_utf8;
use vstd::utf8::encode_utf8;
use vstd::utf8::valid_utf8;

use crate::bytesfmt::append_bytes;
use crate::errors::PipelineError;
use crate::errors::Stage;
use crate::hashing::keccak256_of;
use crate::hexfmt::parse_eth_address;
use crate::hexfmt::spec_parse_eth_address;
use crate::slot_key::mapping_slot_key;
use crate::slot_key::slot_key_preimage;
use crate::slot_key::ADDRESS_BYTES;

/// A fresh observation from the trusted block oracle: the latest block of
/// a domain, with its 32-byte state root.  Fetched anew each cycle and
/// never cached across cycles.
pub struct BlockRoot {
    /// The tag naming the source chain and verification profile.
    pub domain: String,
    /// The block height the root belongs to.
    pub number: u64,
    /// The 32-byte state root.
    pub root: Vec<u8>,
}

impl BlockRoot {
    /// A state root is exactly 32 bytes wide.
    pub open spec fn wf(&self) -> bool {
        self.root@.len() == 32
    }
}

/// One element of an ordered witness bundle.
///
/// Position carries meaning: index 0 is always the state proof, index 1
/// the destination identity's raw bytes, and index 2, when present, the
/// source token's raw address bytes.  The consumer enforces the arity.
pub enum Witness {
    /// An account/storage inclusion proof bound to one domain and one
    /// state root.
    StateProof { domain: String, root: Vec<u8>, proof: Vec<u8> },
    /// Raw identity bytes whose meaning is fixed by their position.
    RawData { data: Vec<u8> },
}

/// The mathematical shape of a witness, used by contracts and by the
/// bundle codec.
pub enum WitnessV {
    StateProof { domain: Seq<char>, root: Seq<u8>, proof: Seq<u8> },
    RawData { data: Seq<u8> },
}

impl View for Witness {
    type V = WitnessV;

    open spec fn view(&self) -> WitnessV {
        match self {
            Witness::StateProof { domain, root, proof } => WitnessV::StateProof {
                domain: domain@,
                root: root@,
                proof: proof@,
            },
            Witness::RawData { data } => WitnessV::RawData { data: data@ },
        }
    }
}

/// The views of a bundle's elements, in order.
pub open spec fn views_of(ws: Seq<Witness>) -> Seq<WitnessV> {
    Seq::new(ws.len(), |i: int| ws[i]@)
}

/// Field widths a witness must respect so that its canonical encoding
/// (with 32-bit length prefixes and a 32-byte root) exists.
pub open spec fn witness_wf(w: WitnessV) -> bool {
    match w {
        WitnessV::StateProof { domain, root, proof } => {
            &&& root.len() == 32
            &&& encode_utf8(domain).len() < 0x100000000
            &&& proof.len() < 0x100000000
        },
        WitnessV::RawData { data } => data.len() < 0x100000000,
    }
}

/// A bundle short enough for a one-byte count, all of whose witnesses
/// are well-formed.
pub open spec fn bundle_wf(ws: Seq<WitnessV>) -> bool {
    &&& ws.len() < 256
    &&& forall|i: int| 0 <= i < ws.len() ==> witness_wf(#[trigger] ws[i])
}

/// A proof request as the outside world hands it in: the token contract
/// (absent for native-balance requests), the holder's EVM address, and
/// the destination identity on the target chain.
pub struct ProofRequest {
    /// The token contract address string, `0x`-prefixed, when the amount
    /// comes from a balance-mapping slot.
    pub erc20: Option<String>,
    /// The holder's EVM address string, `0x`-prefixed.
    pub eth_addr: String,
    /// The destination identity on the target chain.
    pub neutron_addr: String,
}

/// What the proof provider must be asked for in a token-balance request:
/// the contract account to prove, and the derived slot key inside it.
pub struct StorageQuery {
    /// The token contract's 20 raw address bytes.
    pub contract: Vec<u8>,
    /// The 32-byte storage-slot key of the holder's balance entry.
    pub slot_key: Vec<u8>,
}

/// Copies a byte string.
pub fn clone_bytes(v: &Vec<u8>) -> (r: Vec<u8>)
    ensures
        r@ == v@,
{
    let mut out: Vec<u8> = Vec::new();
    append_bytes(&mut out, v.as_slice());
    out
}

/// The bytes of a string: its UTF-8 encoding.
pub fn bytes_of_str(s: &String) -> (r: Vec<u8>)
    ensures
        r@ == encode_utf8(s@),
{
    let mut out: Vec<u8> = Vec::new();
    append_bytes(&mut out, s.as_str().as_bytes());
    out
}

/// Relies on `String::from_utf8`: it succeeds exactly on valid UTF-8
/// input and returns the string spelled by those bytes, unchanged.
#[verifier::external_body]
pub(crate) fn utf8_to_string(bytes: &Vec<u8>) -> (r: Option<String>)
    ensures
        match r {
            Some(s) => valid_utf8(bytes@) && s@ == decode_utf8(bytes@) && encode_utf8(s@)
                == bytes@,
            None => !valid_utf8(bytes@),
        },
{
    String::from_utf8(bytes.clone()).ok()
}

/// Accepts the block oracle's answer for a domain: the latest trusted
/// block, or a failure when the oracle knows none.  Assembly must not
/// proceed without a trusted block, and the failure is retryable only
/// at the next full cycle.
pub fn resolve_block_root(found: Option<BlockRoot>) -> (r: Result<BlockRoot, PipelineError>)
    ensures
        match r {
            Ok(b) => found matches Some(b0) && b == b0,
            Err(e) => found is None && e == (PipelineError::TransientIOError {
                stage: Stage::WitnessAssembly,
            }),
        },
{
    match found {
        Some(b) => Ok(b),
        None => Err(PipelineError::TransientIOError { stage: Stage::WitnessAssembly }),
    }
}

/// Decides at run time whether a bundle is well-formed enough to own a
/// canonical encoding, so that unverified callers can establish the
/// encoder's precondition by checking rather than assuming.
pub fn check_bundle_wf(ws: &Vec<Witness>) -> (r: bool)
    ensures
        r == bundle_wf(views_of(ws@)),
{
    if ws.len() >= 256 {
        return false;
    }
    let mut i: usize = 0;
    while i < ws.len()
        invariant
            0 <= i <= ws@.len(),
            ws@.len() < 256,
            forall|j: int| 0 <= j < i ==> witness_wf(#[trigger] views_of(ws@)[j]),
        decreases ws@.len() - i,
    {
        proof {
            assert(views_of(ws@)[i as int] == ws@[i as int]@);
        }
        let ok = match &ws[i] {
            Witness::StateProof { domain, root, proof } => {
                root.len() == 32 && ((domain.as_str().as_bytes().len() as u128) < 0x100000000)
                    && ((proof.len() as u128) < 0x100000000)
            },
            Witness::RawData { data } => (data.len() as u128) < 0x100000000,
        };
        if !ok {
            return false;
        }
        i = i + 1;
    }
    true
}

/// Resolves a token-balance request into the provider query: parses both
/// address strings and derives the storage-slot key of the holder's
/// entry at `slot_index`.  Fails exactly when an address string is not a
/// well-formed `0x`-prefixed 40-digit address; assembly must not proceed
/// then.
pub fn storage_query(erc20: &String, eth_addr: &String, slot_index: u64) -> (r: Result<
    StorageQuery,
    PipelineError,
>)
    ensures
        match r {
            Ok(q) => {
                &&& spec_parse_eth_address(encode_utf8(erc20@)) == Some(q.contract@)
                &&& q.contract@.len() == ADDRESS_BYTES
                &&& spec_parse_eth_address(encode_utf8(eth_addr@)) matches Some(h) && q.slot_key@
                    == keccak256_of(slot_key_preimage(h, slot_index))
                &&& q.slot_key@.len() == 32
            },
            Err(e) => {
                &&& e == (PipelineError::DecodeError { stage: Stage::WitnessAssembly })
                &&& (spec_parse_eth_address(encode_utf8(erc20@)) is None
                    || spec_parse_eth_address(encode_utf8(eth_addr@)) is None)
            },
        },
{
    let contract = match parse_eth_address(erc20.as_str().as_bytes()) {
        Some(v) => v,
        None => {
            return Err(PipelineError::DecodeError { stage: Stage::WitnessAssembly });
        },
    };
    let holder = match parse_eth_address(eth_addr.as_str().as_bytes()) {
        Some(v) => v,
        None => {
            return Err(PipelineError::DecodeError { stage: Stage::WitnessAssembly });
        },
    };
    let slot_key = mapping_slot_key(&holder, slot_index);
    Ok(StorageQuery { contract, slot_key })
}

/// Assembles the ordered witness bundle for a request, from the trusted
/// block observation and the serialized inclusion proof the provider
/// returned.
///
/// Index 0 is always the state proof carrying the block's domain and
/// root; index 1 is always the destination identity's UTF-8 bytes; index
/// 2 is present exactly for token requests and holds the token's 20 raw
/// address bytes.  Fails exactly when a present token address string is
/// malformed.
pub fn get_witnesses(req: &ProofRequest, block: &BlockRoot, proof_bytes: Vec<u8>) -> (r: Result<
    Vec<Witness>,
    PipelineError,
>)
    ensures
        match r {
            Ok(ws) => {
                &&& ws@.len() == (if req.erc20 is Some {
                    3int
                } else {
                    2int
                })
                &&& ws@[0]@ == (WitnessV::StateProof {
                    domain: block.domain@,
                    root: block.root@,
                    proof: proof_bytes@,
                })
                &&& ws@[1]@ == (WitnessV::RawData { data: encode_utf8(req.neutron_addr@) })
                &&& (req.erc20 matches Some(t) ==> spec_parse_eth_address(encode_utf8(t@))
                    matches Some(c) && ws@[2]@ == (WitnessV::RawData { data: c }))
            },
            Err(e) => {
                &&& e == (PipelineError::DecodeError { stage: Stage::WitnessAssembly })
                &&& req.erc20 matches Some(t) && spec_parse_eth_address(encode_utf8(t@)) is None
            },
        },
{
    let mut ws: Vec<Witness> = Vec::new();
    ws.push(
        Witness::StateProof {
            domain: block.domain.clone(),
            root: clone_bytes(&block.root),
            proof: proof_bytes,
        },
    );
    ws.push(Witness::RawData { data: bytes_of_str(&req.neutron_addr) });
    match &req.erc20 {
        Some(t) => {
            let token = match parse_eth_address(t.as_str().as_bytes()) {
                Some(v) => v,
                None => {
                    return Err(PipelineError::DecodeError { stage: Stage::WitnessAssembly });
                },
            };
            ws.push(Witness::RawData { data: token });
        },
        None => {},
    }
    Ok(ws)
}

} // verus!
