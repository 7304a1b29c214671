use vstd::prelude::*;

verus! {

use vstd::utf8::decode_utf8;
use vstd::utf8::encode_utf8;
use vstd::utf8::encode_utf8_decode_utf8;
use vstd::utf8::encode_utf8_valid_utf8;
use vstd::utf8::valid_utf8;

use crate::bundle::dec_bytes_field;
use crate::bundle::len_pref;
use crate::bundle::push_len_prefixed;
use crate::bytesfmt::be_bytes;
use crate::bytesfmt::be_val;
use crate::bytesfmt::lemma_be_bytes_len;
use crate::bytesfmt::lemma_be_bytes_val;
use crate::bytesfmt::lemma_be_val_bound;
use crate::bytesfmt::pow256;
use crate::bytesfmt::push_be;
use crate::bytesfmt::read_be;
use crate::witness::bytes_of_str;
use crate::witness::utf8_to_string;

// The shared model of a cross-chain mint authorization: one mint call,
// wrapped in an atomic batch with a priority and an optional
// expiration, wrapped in the message the on-chain authorization
// entrypoint enqueues once its proofs verify.  The canonical byte
// serialization defined here is the public committed output of the
// proving transform, so it must be reproducible bit for bit.

/// Queue priority of an authorization batch.
#[derive(Clone, Copy, Debug, PartialEq, Eq, Structural)]
pub enum Priority {
    Medium,
    High,
}

/// The execution domain an authorization message is addressed to.
#[derive(Clone, Copy, Debug, PartialEq, Eq, Structural)]
pub enum ExecutionDomain {
    Main,
}

/// A single cross-chain mint instruction.  The amount is a deliberate
/// 128-bit domain limit: wider proof-native values must fail, never
/// truncate.
pub struct MintInstruction {
    /// The destination identity that receives the minted tokens.
    pub recipient: String,
    /// The amount to mint.
    pub amount: u128,
}

/// One call of an atomic batch: a mint instruction bound to the token
/// contract that executes it.
pub struct MintCall {
    /// The token contract address on the execution domain.
    pub token_contract: String,
    /// The instruction itself.
    pub mint: MintInstruction,
}

/// An ordered, atomic list of calls bound to a priority and an optional
/// expiration: all of them execute together or none does.
pub struct InstructionBatch {
    /// Batch identifier; 0 is the unconstrained sentinel.
    pub id: u64,
    /// The calls, in execution order.
    pub calls: Vec<MintCall>,
    /// Queue priority.
    pub priority: Priority,
    /// Expiration time, absent for no expiration.
    pub expiration_time: Option<u64>,
}

/// The message the on-chain authorization entrypoint enqueues once both
/// proofs of its artifact verify.  Registry id and block number stay at
/// the sentinel 0 unless a deployment overrides them.
pub struct AuthorizationMessage {
    /// Registry identifier; 0 is the unconstrained sentinel.
    pub registry: u64,
    /// Block number bound; 0 is the unconstrained sentinel.
    pub block_number: u64,
    /// The execution domain.
    pub domain: ExecutionDomain,
    /// The authorization contract address, when constrained to one.
    pub authorization_contract: Option<String>,
    /// The wrapped instruction batch.
    pub message: InstructionBatch,
}

/// The mathematical shape of a mint instruction.
pub struct MintInstructionV {
    pub recipient: Seq<char>,
    pub amount: u128,
}

impl View for MintInstruction {
    type V = MintInstructionV;

    open spec fn view(&self) -> MintInstructionV {
        MintInstructionV { recipient: self.recipient@, amount: self.amount }
    }
}

/// The mathematical shape of a call.
pub struct MintCallV {
    pub token_contract: Seq<char>,
    pub mint: MintInstructionV,
}

impl View for MintCall {
    type V = MintCallV;

    open spec fn view(&self) -> MintCallV {
        MintCallV { token_contract: self.token_contract@, mint: self.mint@ }
    }
}

/// The mathematical shape of a batch.
pub struct InstructionBatchV {
    pub id: u64,
    pub calls: Seq<MintCallV>,
    pub priority: Priority,
    pub expiration_time: Option<u64>,
}

impl View for InstructionBatch {
    type V = InstructionBatchV;

    open spec fn view(&self) -> InstructionBatchV {
        InstructionBatchV {
            id: self.id,
            calls: Seq::new(self.calls@.len(), |i: int| self.calls@[i]@),
            priority: self.priority,
            expiration_time: self.expiration_time,
        }
    }
}

/// The mathematical shape of an authorization message.
pub struct AuthorizationMessageV {
    pub registry: u64,
    pub block_number: u64,
    pub domain: ExecutionDomain,
    pub authorization_contract: Option<Seq<char>>,
    pub message: InstructionBatchV,
}

impl View for AuthorizationMessage {
    type V = AuthorizationMessageV;

    open spec fn view(&self) -> AuthorizationMessageV {
        AuthorizationMessageV {
            registry: self.registry,
            block_number: self.block_number,
            domain: self.domain,
            authorization_contract: match &self.authorization_contract {
                Some(a) => Some(a@),
                None => None,
            },
            message: self.message@,
        }
    }
}

/// Field widths a message must respect so that its canonical encoding
/// (32-bit length prefixes and counts) exists.
pub open spec fn message_wf(m: AuthorizationMessage) -> bool {
    &&& m.message.calls@.len() < 0x100000000
    &&& (m.authorization_contract matches Some(a) ==> encode_utf8(a@).len() < 0x100000000)
    &&& forall|i: int|
        0 <= i < m.message.calls@.len() ==> call_wf(#[trigger] m.message.calls@[i])
}

/// Field widths of one call.
pub open spec fn call_wf(c: MintCall) -> bool {
    &&& encode_utf8(c.token_contract@).len() < 0x100000000
    &&& encode_utf8(c.mint.recipient@).len() < 0x100000000
}

/// The canonical encoding of one call: both address strings with
/// 4-byte length prefixes, then the amount as 16 big-endian bytes.
pub open spec fn spec_enc_call(c: MintCall) -> Seq<u8> {
    len_pref(encode_utf8(c.token_contract@)) + len_pref(encode_utf8(c.mint.recipient@)) + be_bytes(
        c.mint.amount as nat,
        16,
    )
}

/// The concatenated encodings of a batch's calls, in order.
pub open spec fn spec_enc_calls(cs: Seq<MintCall>) -> Seq<u8>
    decreases cs.len(),
{
    if cs.len() == 0 {
        Seq::<u8>::empty()
    } else {
        spec_enc_call(cs[0]) + spec_enc_calls(cs.drop_first())
    }
}

/// Tag byte of an execution domain.
pub open spec fn spec_domain_tag(d: ExecutionDomain) -> u8 {
    match d {
        ExecutionDomain::Main => 0u8,
    }
}

/// Tag byte of a priority.
pub open spec fn spec_priority_tag(p: Priority) -> u8 {
    match p {
        Priority::Medium => 0u8,
        Priority::High => 1u8,
    }
}

/// The canonical serialization of an authorization message:
///
///   msg  := registry:8 block:8 domain:1
///           (0x00 | 0x01 len32(contract-utf8) contract)
///           id:8 count:4 call* priority:1
///           (0x00 | 0x01 expiration:8)
///   call := len32(token-utf8) token len32(recipient-utf8) recipient amount:16
///
/// with all integers big-endian.  Deterministic by construction: equal
/// messages give equal bytes on every machine and in every run.
pub open spec fn spec_enc_auth_message(m: AuthorizationMessage) -> Seq<u8> {
    be_bytes(m.registry as nat, 8) + be_bytes(m.block_number as nat, 8) + seq![
        spec_domain_tag(m.domain),
    ] + (match m.authorization_contract {
        Some(a) => seq![1u8] + len_pref(encode_utf8(a@)),
        None => seq![0u8],
    }) + be_bytes(m.message.id as nat, 8) + be_bytes(m.message.calls@.len() as nat, 4)
        + spec_enc_calls(m.message.calls@) + seq![spec_priority_tag(m.message.priority)] + (
    match m.message.expiration_time {
        Some(t) => seq![1u8] + be_bytes(t as nat, 8),
        None => seq![0u8],
    })
}

/// The canonical bytes of the one-mint message [`build_zk_msg`]
/// produces from these parts: registry, block number and batch id at
/// the sentinel 0, main domain, no authorization contract, exactly one
/// call, medium priority, no expiration.
pub open spec fn spec_enc_mint_message(token: Seq<char>, recipient: Seq<char>, amount: u128) -> Seq<
    u8,
> {
    be_bytes(0, 8) + be_bytes(0, 8) + seq![0u8] + seq![0u8] + be_bytes(0, 8) + be_bytes(1, 4) + (
    len_pref(encode_utf8(token)) + len_pref(encode_utf8(recipient)) + be_bytes(amount as nat, 16))
        + seq![0u8] + seq![0u8]
}

proof fn lemma_enc_calls_singleton(c: MintCall)
    ensures
        spec_enc_calls(seq![c]) == spec_enc_call(c),
{
    assert(seq![c].drop_first() =~= Seq::<MintCall>::empty());
    assert(spec_enc_calls(seq![c].drop_first()) == Seq::<u8>::empty());
    assert(spec_enc_call(c) + Seq::<u8>::empty() =~= spec_enc_call(c));
}

/// Builds the authorization message wrapping a single mint call: the
/// given recipient and amount, bound to the given token contract, with
/// medium priority, no expiration, and registry, block number and
/// batch id left at the unconstrained sentinel 0.
pub fn build_zk_msg(recipient: String, amount: u128, token_contract: String) -> (r:
    AuthorizationMessage)
    ensures
        r.registry == 0,
        r.block_number == 0,
        r.domain == ExecutionDomain::Main,
        r.authorization_contract is None,
        r.message.id == 0,
        r.message.priority == Priority::Medium,
        r.message.expiration_time is None,
        r.message.calls@.len() == 1,
        r.message.calls@[0].token_contract@ == token_contract@,
        r.message.calls@[0].mint.recipient@ == recipient@,
        r.message.calls@[0].mint.amount == amount,
        spec_enc_auth_message(r) == spec_enc_mint_message(token_contract@, recipient@, amount),
{
    let call = MintCall { token_contract, mint: MintInstruction { recipient, amount } };
    let mut calls: Vec<MintCall> = Vec::new();
    calls.push(call);
    let r = AuthorizationMessage {
        registry: 0,
        block_number: 0,
        domain: ExecutionDomain::Main,
        authorization_contract: None,
        message: InstructionBatch {
            id: 0,
            calls,
            priority: Priority::Medium,
            expiration_time: None,
        },
    };
    proof {
        assert(r.message.calls@ =~= seq![r.message.calls@[0]]);
        lemma_enc_calls_singleton(r.message.calls@[0]);
        assert(spec_enc_auth_message(r) =~= spec_enc_mint_message(
            r.message.calls@[0].token_contract@,
            r.message.calls@[0].mint.recipient@,
            amount,
        ));
    }
    r
}

proof fn lemma_enc_calls_snoc(cs: Seq<MintCall>, c: MintCall)
    ensures
        spec_enc_calls(cs + seq![c]) == spec_enc_calls(cs) + spec_enc_call(c),
    decreases cs.len(),
{
    if cs.len() == 0 {
        assert((cs + seq![c]).drop_first() =~= Seq::<MintCall>::empty());
        assert((cs + seq![c])[0] == c);
        assert((cs + seq![c]).len() == 1);
        assert(spec_enc_calls(Seq::<MintCall>::empty()) == Seq::<u8>::empty());
        assert(spec_enc_calls(cs + seq![c]) == spec_enc_call(c) + Seq::<u8>::empty());
        assert(spec_enc_call(c) + Seq::<u8>::empty() =~= spec_enc_call(c));
        assert(spec_enc_calls(cs) + spec_enc_call(c) =~= spec_enc_call(c));
    } else {
        lemma_enc_calls_snoc(cs.drop_first(), c);
        assert((cs + seq![c]).drop_first() =~= cs.drop_first() + seq![c]);
        assert((cs + seq![c])[0] == cs[0]);
        assert(spec_enc_call(cs[0]) + (spec_enc_calls(cs.drop_first()) + spec_enc_call(c)) =~= (
        spec_enc_call(cs[0]) + spec_enc_calls(cs.drop_first())) + spec_enc_call(c));
    }
}

/// Appends the canonical encoding of one call to `out`.
fn encode_call(out: &mut Vec<u8>, c: &MintCall)
    requires
        call_wf(*c),
    ensures
        final(out)@ == old(out)@ + spec_enc_call(*c),
{
    let tbytes = bytes_of_str(&c.token_contract);
    push_len_prefixed(out, &tbytes);
    let rbytes = bytes_of_str(&c.mint.recipient);
    push_len_prefixed(out, &rbytes);
    push_be(out, c.mint.amount, 16);
    proof {
        assert(final(out)@ =~= old(out)@ + spec_enc_call(*c));
    }
}

/// Serializes an authorization message canonically; this byte string is
/// the public committed output of the proving transform.
pub fn encode_auth_message(m: &AuthorizationMessage) -> (r: Vec<u8>)
    requires
        message_wf(*m),
    ensures
        r@ == spec_enc_auth_message(*m),
{
    let mut out: Vec<u8> = Vec::new();
    push_be(&mut out, m.registry as u128, 8);
    push_be(&mut out, m.block_number as u128, 8);
    match m.domain {
        ExecutionDomain::Main => out.push(0u8),
    }
    match &m.authorization_contract {
        Some(a) => {
            out.push(1u8);
            let abytes = bytes_of_str(a);
            push_len_prefixed(&mut out, &abytes);
        },
        None => {
            out.push(0u8);
        },
    }
    push_be(&mut out, m.message.id as u128, 8);
    push_be(&mut out, m.message.calls.len() as u128, 4);
    let head_g: Ghost<Seq<u8>> = Ghost(out@);
    let mut i: usize = 0;
    while i < m.message.calls.len()
        invariant
            0 <= i <= m.message.calls@.len(),
            message_wf(*m),
            out@ == head_g@ + spec_enc_calls(m.message.calls@.subrange(0, i as int)),
        decreases m.message.calls@.len() - i,
    {
        proof {
            assert(call_wf(m.message.calls@[i as int]));
        }
        encode_call(&mut out, &m.message.calls[i]);
        proof {
            let cs = m.message.calls@;
            lemma_enc_calls_snoc(cs.subrange(0, i as int), cs[i as int]);
            assert(cs.subrange(0, i as int) + seq![cs[i as int]] =~= cs.subrange(0, i + 1));
        }
        i = i + 1;
    }
    proof {
        assert(m.message.calls@.subrange(0, m.message.calls@.len() as int) =~= m.message.calls@);
    }
    match m.message.priority {
        Priority::Medium => out.push(0u8),
        Priority::High => out.push(1u8),
    }
    match &m.message.expiration_time {
        Some(t) => {
            out.push(1u8);
            push_be(&mut out, *t as u128, 8);
        },
        None => {
            out.push(0u8);
        },
    }
    proof {
        assert(out@ =~= spec_enc_auth_message(*m));
    }
    out
}

/// The views of a call sequence, in order.
pub open spec fn views_of_calls(cs: Seq<MintCall>) -> Seq<MintCallV> {
    Seq::new(cs.len(), |i: int| cs[i]@)
}

/// Reads the optional authorization-contract field at `pos`: a tag
/// byte, then a length-prefixed UTF-8 address when present.
pub open spec fn dec_auth_contract(b: Seq<u8>, pos: int) -> Option<(Option<Seq<char>>, int)> {
    if 0 <= pos < b.len() {
        if b[pos] == 0u8 {
            Some((None, pos + 1))
        } else if b[pos] == 1u8 {
            match dec_bytes_field(b, pos + 1) {
                Some((a, p)) => if valid_utf8(a) {
                    Some((Some(decode_utf8(a)), p))
                } else {
                    None
                },
                None => None,
            }
        } else {
            None
        }
    } else {
        None
    }
}

/// Reads a priority tag byte.
pub open spec fn dec_priority(t: u8) -> Option<Priority> {
    if t == 0u8 {
        Some(Priority::Medium)
    } else if t == 1u8 {
        Some(Priority::High)
    } else {
        None
    }
}

/// Reads the optional expiration field at `pos`, which must end the
/// buffer: a tag byte, then eight big-endian bytes when present.
pub open spec fn dec_expiration(b: Seq<u8>, pos: int) -> Option<Option<u64>> {
    if 0 <= pos < b.len() {
        if b[pos] == 0u8 && pos + 1 == b.len() {
            Some(None)
        } else if b[pos] == 1u8 && pos + 9 == b.len() {
            Some(Some(be_val(b.subrange(pos + 1, pos + 9)) as u64))
        } else {
            None
        }
    } else {
        None
    }
}

/// Reads one call at `pos`: two length-prefixed UTF-8 strings and a
/// 16-byte amount.
pub open spec fn spec_dec_call(b: Seq<u8>, pos: int) -> Option<(MintCallV, int)> {
    match dec_bytes_field(b, pos) {
        Some((tok, p1)) => if valid_utf8(tok) {
            match dec_bytes_field(b, p1) {
                Some((rcp, p2)) => if valid_utf8(rcp) && p2 + 16 <= b.len() {
                    Some(
                        (
                            MintCallV {
                                token_contract: decode_utf8(tok),
                                mint: MintInstructionV {
                                    recipient: decode_utf8(rcp),
                                    amount: be_val(b.subrange(p2, p2 + 16)) as u128,
                                },
                            },
                            p2 + 16,
                        ),
                    )
                } else {
                    None
                },
                None => None,
            }
        } else {
            None
        },
        None => None,
    }
}

/// Reads `count` consecutive calls starting at `pos`.
pub open spec fn dec_calls(b: Seq<u8>, pos: int, count: nat) -> Option<(Seq<MintCallV>, int)>
    decreases count,
{
    if count == 0 {
        Some((Seq::<MintCallV>::empty(), pos))
    } else {
        match spec_dec_call(b, pos) {
            Some((c, p1)) => match dec_calls(b, p1, (count - 1) as nat) {
                Some((cs, p2)) => Some((seq![c] + cs, p2)),
                None => None,
            },
            None => None,
        }
    }
}

/// Reads a whole canonical message, consuming the buffer completely.
pub open spec fn spec_dec_auth_message(b: Seq<u8>) -> Option<AuthorizationMessageV> {
    if b.len() >= 18 && b[16] == 0u8 {
        match dec_auth_contract(b, 17) {
            Some((authc, p0)) => if p0 + 12 <= b.len() {
                match dec_calls(b, p0 + 12, be_val(b.subrange(p0 + 8, p0 + 12))) {
                    Some((calls, p1)) => if p1 < b.len() {
                        match dec_priority(b[p1]) {
                            Some(prio) => match dec_expiration(b, p1 + 1) {
                                Some(exp) => Some(
                                    AuthorizationMessageV {
                                        registry: be_val(b.subrange(0, 8)) as u64,
                                        block_number: be_val(b.subrange(8, 16)) as u64,
                                        domain: ExecutionDomain::Main,
                                        authorization_contract: authc,
                                        message: InstructionBatchV {
                                            id: be_val(b.subrange(p0, p0 + 8)) as u64,
                                            calls,
                                            priority: prio,
                                            expiration_time: exp,
                                        },
                                    },
                                ),
                                None => None,
                            },
                            None => None,
                        }
                    } else {
                        None
                    },
                    None => None,
                }
            } else {
                None
            },
            None => None,
        }
    } else {
        None
    }
}

proof fn lemma_dec_call(b: Seq<u8>, pos: int, c: MintCall)
    requires
        call_wf(c),
        0 <= pos,
        pos + spec_enc_call(c).len() <= b.len(),
        b.subrange(pos, pos + spec_enc_call(c).len()) == spec_enc_call(c),
    ensures
        spec_dec_call(b, pos) == Some((c@, pos + spec_enc_call(c).len())),
{
    let enc = spec_enc_call(c);
    let seg = b.subrange(pos, pos + enc.len());
    let et = encode_utf8(c.token_contract@);
    let er = encode_utf8(c.mint.recipient@);
    lemma_be_bytes_len(et.len() as nat, 4);
    lemma_be_bytes_len(er.len() as nat, 4);
    lemma_be_bytes_len(c.mint.amount as nat, 16);
    assert(enc.len() == 4 + et.len() + 4 + er.len() + 16);
    let p1 = pos + 4 + et.len();
    let p2 = p1 + 4 + er.len();
    assert(b.subrange(pos, p1 as int) =~= len_pref(et)) by {
        assert forall|i: int| 0 <= i < 4 + et.len() implies b.subrange(pos, p1 as int)[i]
            == len_pref(et)[i] by {
            assert(b.subrange(pos, p1 as int)[i] == seg[i]);
            assert(seg[i] == enc[i]);
        }
    }
    crate::bundle::lemma_dec_bytes_field(b, pos, et);
    encode_utf8_valid_utf8(c.token_contract@);
    encode_utf8_decode_utf8(c.token_contract@);
    assert(b.subrange(p1 as int, p2 as int) =~= len_pref(er)) by {
        assert forall|i: int| 0 <= i < 4 + er.len() implies b.subrange(p1 as int, p2 as int)[i]
            == len_pref(er)[i] by {
            assert(b.subrange(p1 as int, p2 as int)[i] == seg[4 + et.len() + i]);
            assert(seg[4 + et.len() + i] == enc[4 + et.len() + i]);
        }
    }
    crate::bundle::lemma_dec_bytes_field(b, p1, er);
    encode_utf8_valid_utf8(c.mint.recipient@);
    encode_utf8_decode_utf8(c.mint.recipient@);
    assert(b.subrange(p2 as int, p2 + 16) =~= be_bytes(c.mint.amount as nat, 16)) by {
        assert forall|i: int| 0 <= i < 16 implies b.subrange(p2 as int, p2 + 16)[i] == be_bytes(
            c.mint.amount as nat,
            16,
        )[i] by {
            assert(b.subrange(p2 as int, p2 + 16)[i] == seg[4 + et.len() + 4 + er.len() + i]);
            assert(seg[4 + et.len() + 4 + er.len() + i] == enc[4 + et.len() + 4 + er.len() + i]);
        }
    }
    assert(pow256(16) == 0x100000000000000000000000000000000) by {
        reveal_with_fuel(pow256, 17);
    }
    lemma_be_bytes_val(c.mint.amount as nat, 16);
}

proof fn lemma_dec_calls(b: Seq<u8>, pos: int, cs: Seq<MintCall>)
    requires
        forall|i: int| 0 <= i < cs.len() ==> call_wf(#[trigger] cs[i]),
        0 <= pos,
        pos + spec_enc_calls(cs).len() <= b.len(),
        b.subrange(pos, pos + spec_enc_calls(cs).len()) == spec_enc_calls(cs),
    ensures
        dec_calls(b, pos, cs.len()) == Some((views_of_calls(cs), pos + spec_enc_calls(cs).len())),
    decreases cs.len(),
{
    if cs.len() == 0 {
        assert(views_of_calls(cs) =~= Seq::<MintCallV>::empty());
    } else {
        let e0 = spec_enc_call(cs[0]);
        let rest = spec_enc_calls(cs.drop_first());
        let all = spec_enc_calls(cs);
        assert(all == e0 + rest);
        let seg = b.subrange(pos, pos + all.len());
        assert(b.subrange(pos, pos + e0.len()) =~= e0) by {
            assert forall|i: int| 0 <= i < e0.len() implies b.subrange(pos, pos + e0.len())[i]
                == e0[i] by {
                assert(b.subrange(pos, pos + e0.len())[i] == seg[i]);
                assert(seg[i] == all[i]);
            }
        }
        lemma_dec_call(b, pos, cs[0]);
        assert(b.subrange(pos + e0.len(), pos + e0.len() + rest.len()) =~= rest) by {
            assert forall|i: int| 0 <= i < rest.len() implies b.subrange(
                pos + e0.len(),
                pos + e0.len() + rest.len(),
            )[i] == rest[i] by {
                assert(b.subrange(pos + e0.len(), pos + e0.len() + rest.len())[i] == seg[e0.len()
                    + i]);
                assert(seg[e0.len() + i] == all[e0.len() + i]);
            }
        }
        lemma_dec_calls(b, pos + e0.len(), cs.drop_first());
        assert(views_of_calls(cs.drop_first()) =~= views_of_calls(cs).drop_first());
        assert(seq![cs[0]@] + views_of_calls(cs).drop_first() =~= views_of_calls(cs));
    }
}

/// Round trip: decoding the canonical serialization of a well-formed
/// message returns exactly that message.  Equal byte strings therefore
/// commit to equal messages: the serialization is injective.
#[verifier::rlimit(50)]
pub proof fn lemma_message_round_trip(m: AuthorizationMessage)
    requires
        message_wf(m),
    ensures
        spec_dec_auth_message(spec_enc_auth_message(m)) == Some(m@),
{
    let b = spec_enc_auth_message(m);
    let s0 = be_bytes(m.registry as nat, 8);
    let s1 = be_bytes(m.block_number as nat, 8);
    let s3 = match m.authorization_contract {
        Some(a) => seq![1u8] + len_pref(encode_utf8(a@)),
        None => seq![0u8],
    };
    let p0 = 17 + s3.len() as int;
    let s4 = be_bytes(m.message.id as nat, 8);
    let s5 = be_bytes(m.message.calls@.len() as nat, 4);
    let s6 = spec_enc_calls(m.message.calls@);
    let p1 = p0 + 12 + s6.len() as int;
    let s8 = match m.message.expiration_time {
        Some(t) => seq![1u8] + be_bytes(t as nat, 8),
        None => seq![0u8],
    };
    lemma_be_bytes_len(m.registry as nat, 8);
    lemma_be_bytes_len(m.block_number as nat, 8);
    lemma_be_bytes_len(m.message.id as nat, 8);
    lemma_be_bytes_len(m.message.calls@.len() as nat, 4);
    if m.authorization_contract is Some {
        lemma_be_bytes_len(encode_utf8(m.authorization_contract->0@).len() as nat, 4);
    }
    if m.message.expiration_time is Some {
        lemma_be_bytes_len(m.message.expiration_time->0 as nat, 8);
    }
    assert(b.len() == 30 + s3.len() + s6.len() + s8.len());
    assert(pow256(8) == 0x10000000000000000) by {
        reveal_with_fuel(pow256, 9);
    }
    assert(pow256(4) == 0x100000000) by {
        reveal_with_fuel(pow256, 5);
    }

    // the fixed head: registry, block number, domain tag
    assert(b.subrange(0, 8) =~= s0);
    lemma_be_bytes_val(m.registry as nat, 8);
    assert(b.subrange(8, 16) =~= s1);
    lemma_be_bytes_val(m.block_number as nat, 8);
    assert(b[16] == spec_domain_tag(m.domain));
    assert(b[16] == 0u8);

    // the optional authorization contract
    assert(b[17] == s3[0]);
    match m.authorization_contract {
        Some(a) => {
            let ea = encode_utf8(a@);
            assert(b[17] == 1u8);
            assert(b.subrange(18, p0) =~= len_pref(ea)) by {
                assert forall|i: int| 0 <= i < 4 + ea.len() implies b.subrange(18, p0)[i]
                    == len_pref(ea)[i] by {
                    assert(b.subrange(18, p0)[i] == b[18 + i]);
                    assert(s3[1 + i] == len_pref(ea)[i]);
                }
            }
            crate::bundle::lemma_dec_bytes_field(b, 18, ea);
            encode_utf8_valid_utf8(a@);
            encode_utf8_decode_utf8(a@);
            assert(dec_auth_contract(b, 17) == Some((Some(a@), p0)));
        },
        None => {
            assert(b[17] == 0u8);
            assert(dec_auth_contract(b, 17) == Some((None::<Seq<char>>, 18int)));
        },
    }

    // batch id and call count
    assert(b.subrange(p0, p0 + 8) =~= s4);
    lemma_be_bytes_val(m.message.id as nat, 8);
    assert(b.subrange(p0 + 8, p0 + 12) =~= s5);
    lemma_be_bytes_val(m.message.calls@.len() as nat, 4);

    // the calls
    assert(b.subrange(p0 + 12, p1) =~= s6) by {
        assert forall|i: int| 0 <= i < s6.len() implies b.subrange(p0 + 12, p1)[i] == s6[i] by {
            assert(b.subrange(p0 + 12, p1)[i] == b[p0 + 12 + i]);
        }
    }
    assert forall|i: int| 0 <= i < m.message.calls@.len() implies call_wf(
        #[trigger] m.message.calls@[i],
    ) by {}
    lemma_dec_calls(b, p0 + 12, m.message.calls@);

    // priority and expiration
    assert(b[p1] == spec_priority_tag(m.message.priority));
    assert(b[p1 + 1] == s8[0]);
    match m.message.expiration_time {
        Some(t) => {
            assert(b[p1 + 1] == 1u8);
            assert(b.subrange(p1 + 2, p1 + 10) =~= be_bytes(t as nat, 8)) by {
                assert forall|i: int| 0 <= i < 8 implies b.subrange(p1 + 2, p1 + 10)[i] == be_bytes(
                    t as nat,
                    8,
                )[i] by {
                    assert(b.subrange(p1 + 2, p1 + 10)[i] == b[p1 + 2 + i]);
                    assert(s8[1 + i] == be_bytes(t as nat, 8)[i]);
                }
            }
            lemma_be_bytes_val(t as nat, 8);
            assert(p1 + 10 == b.len());
        },
        None => {
            assert(b[p1 + 1] == 0u8);
            assert(p1 + 2 == b.len());
        },
    }
    assert(views_of_calls(m.message.calls@) =~= m@.message.calls);
    assert(spec_dec_auth_message(b) == Some(m@));
}

/// Reads one call at `pos`.
fn decode_call(buf: &Vec<u8>, pos: usize) -> (r: Option<(MintCall, usize)>)
    requires
        pos <= buf@.len(),
    ensures
        match r {
            Some(cp) => spec_dec_call(buf@, pos as int) == Some((cp.0@, cp.1 as int)) && pos < cp.1
                <= buf@.len(),
            None => spec_dec_call(buf@, pos as int) is None,
        },
{
    let blen = buf.len();
    let (tok, p1) = match crate::bundle::read_field(buf, pos) {
        Some(x) => x,
        None => {
            return None;
        },
    };
    let token_contract = match utf8_to_string(&tok) {
        Some(s) => s,
        None => {
            return None;
        },
    };
    let (rcp, p2) = match crate::bundle::read_field(buf, p1) {
        Some(x) => x,
        None => {
            return None;
        },
    };
    let recipient = match utf8_to_string(&rcp) {
        Some(s) => s,
        None => {
            return None;
        },
    };
    if (p2 as u128) + 16 > (blen as u128) {
        return None;
    }
    let amount = read_be(buf, p2, 16);
    proof {
        lemma_be_val_bound(buf@.subrange(p2 as int, p2 + 16));
        assert(pow256(16) == 0x100000000000000000000000000000000) by {
            reveal_with_fuel(pow256, 17);
        }
    }
    Some((MintCall { token_contract, mint: MintInstruction { recipient, amount } }, p2 + 16))
}

/// Deserializes a canonical authorization message.
///
/// Together with [`lemma_message_round_trip`] this pins the committed
/// output format down exactly: the encoding of every well-formed
/// message decodes back to it, field for field, and byte strings of
/// any other shape are refused.
#[verifier::loop_isolation(false)]
pub fn decode_auth_message(buf: &Vec<u8>) -> (r: Option<AuthorizationMessage>)
    ensures
        match r {
            Some(m) => spec_dec_auth_message(buf@) == Some(m@),
            None => spec_dec_auth_message(buf@) is None,
        },
{
    let blen = buf.len();
    if blen < 18 {
        return None;
    }
    let registry128 = read_be(buf, 0, 8);
    let block128 = read_be(buf, 8, 8);
    proof {
        lemma_be_val_bound(buf@.subrange(0, 8));
        lemma_be_val_bound(buf@.subrange(8, 16));
        assert(pow256(8) == 0x10000000000000000) by {
            reveal_with_fuel(pow256, 9);
        }
        assert(pow256(4) == 0x100000000) by {
            reveal_with_fuel(pow256, 5);
        }
    }
    let registry = registry128 as u64;
    let block_number = block128 as u64;
    if buf[16] != 0 {
        return None;
    }
    let (authc, p0): (Option<String>, usize) = if buf[17] == 0 {
        (None, 18)
    } else if buf[17] == 1 {
        let (abytes, p) = match crate::bundle::read_field(buf, 18) {
            Some(x) => x,
            None => {
                return None;
            },
        };
        let s = match utf8_to_string(&abytes) {
            Some(s) => s,
            None => {
                return None;
            },
        };
        (Some(s), p)
    } else {
        return None;
    };
    if (p0 as u128) + 12 > (blen as u128) {
        return None;
    }
    let id128 = read_be(buf, p0, 8);
    let count128 = read_be(buf, p0 + 8, 4);
    proof {
        lemma_be_val_bound(buf@.subrange(p0 as int, p0 + 8));
        lemma_be_val_bound(buf@.subrange(p0 + 8, p0 + 12));
    }
    let id = id128 as u64;
    let count = count128 as usize;
    let mut calls: Vec<MintCall> = Vec::new();
    let mut pos: usize = p0 + 12;
    let mut k: usize = 0;
    proof {
        assert(views_of_calls(calls@) =~= Seq::<MintCallV>::empty());
    }
    while k < count
        invariant
            0 <= k <= count,
            p0 + 12 <= pos <= buf@.len(),
            count as nat == be_val(buf@.subrange(p0 + 8, p0 + 12)),
            calls@.len() == k,
            match dec_calls(buf@, pos as int, (count - k) as nat) {
                Some(csp) => dec_calls(buf@, p0 + 12, count as nat) == Some(
                    (views_of_calls(calls@) + csp.0, csp.1),
                ),
                None => dec_calls(buf@, p0 + 12, count as nat) is None,
            },
        decreases count - k,
    {
        let (c, p2) = match decode_call(buf, pos) {
            Some(x) => x,
            None => {
                return None;
            },
        };
        proof {
            let rem = (count - k) as nat;
            assert(rem > 0);
            match dec_calls(buf@, p2 as int, (rem - 1) as nat) {
                Some(csp) => {
                    assert(dec_calls(buf@, pos as int, rem) == Some((seq![c@] + csp.0, csp.1)));
                    assert(views_of_calls(calls@.push(c)) =~= views_of_calls(calls@) + seq![c@]);
                    assert(views_of_calls(calls@) + (seq![c@] + csp.0) =~= (views_of_calls(calls@)
                        + seq![c@]) + csp.0);
                },
                None => {
                    assert(dec_calls(buf@, pos as int, rem) is None);
                },
            }
        }
        calls.push(c);
        pos = p2;
        k = k + 1;
    }
    proof {
        assert(views_of_calls(calls@) + Seq::<MintCallV>::empty() =~= views_of_calls(calls@));
    }
    if pos >= blen {
        return None;
    }
    let prio = if buf[pos] == 0 {
        Priority::Medium
    } else if buf[pos] == 1 {
        Priority::High
    } else {
        return None;
    };
    let ep = pos + 1;
    if ep >= blen {
        return None;
    }
    let exp: Option<u64> = if buf[ep] == 0 {
        if ep + 1 != blen {
            return None;
        }
        None
    } else if buf[ep] == 1 {
        if (ep as u128) + 9 != (blen as u128) {
            return None;
        }
        let t128 = read_be(buf, ep + 1, 8);
        proof {
            lemma_be_val_bound(buf@.subrange(ep + 1, ep + 9));
            assert(pow256(8) == 0x10000000000000000) by {
                reveal_with_fuel(pow256, 9);
            }
        }
        Some(t128 as u64)
    } else {
        return None;
    };
    Some(
        AuthorizationMessage {
            registry,
            block_number,
            domain: ExecutionDomain::Main,
            authorization_contract: authc,
            message: InstructionBatch { id, calls, priority: prio, expiration_time: exp },
        },
    )
}

} // verus!
