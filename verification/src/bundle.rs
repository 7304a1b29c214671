use vstd::prelude::*;

verus! {

use vstd::utf8::decode_utf8;
use vstd::utf8::encode_utf8;
use vstd::utf8::encode_utf8_decode_utf8;
use vstd::utf8::encode_utf8_valid_utf8;
use vstd::utf8::valid_utf8;

use crate::bytesfmt::append_bytes;
use crate::bytesfmt::be_bytes;
use crate::bytesfmt::be_val;
use crate::bytesfmt::lemma_be_bytes_len;
use crate::bytesfmt::lemma_be_bytes_val;
use crate::bytesfmt::lemma_be_val_bound;
use crate::bytesfmt::pow256;
use crate::bytesfmt::push_be;
use crate::bytesfmt::read_be;
use crate::witness::bundle_wf;
use crate::witness::utf8_to_string;
use crate::witness::views_of;
use crate::witness::witness_wf;
use crate::witness::Witness;
use crate::witness::WitnessV;

// The canonical byte encoding of a witness bundle: the one serialized
// form that travels between the witness builder and the proving
// transform, so both sides must agree on it bit for bit.
//
//   bundle  := count:u8  witness*
//   witness := 0x01 len32(domain-utf8) domain root:32 len32(proof) proof
//            | 0x02 len32(data) data
//
// where len32 is a 4-byte big-endian length prefix.

/// A byte string preceded by its 4-byte big-endian length.
pub open spec fn len_pref(b: Seq<u8>) -> Seq<u8> {
    be_bytes(b.len() as nat, 4) + b
}

/// The canonical encoding of one witness.
pub open spec fn spec_enc_witness(w: WitnessV) -> Seq<u8> {
    match w {
        WitnessV::StateProof { domain, root, proof } => seq![1u8] + len_pref(encode_utf8(domain))
            + root + len_pref(proof),
        WitnessV::RawData { data } => seq![2u8] + len_pref(data),
    }
}

/// The concatenated encodings of a sequence of witnesses, in order.
pub open spec fn spec_enc_witnesses(ws: Seq<WitnessV>) -> Seq<u8>
    decreases ws.len(),
{
    if ws.len() == 0 {
        Seq::<u8>::empty()
    } else {
        spec_enc_witness(ws[0]) + spec_enc_witnesses(ws.drop_first())
    }
}

/// The canonical encoding of a whole bundle: a one-byte count, then the
/// witnesses in order.
pub open spec fn spec_enc_bundle(ws: Seq<WitnessV>) -> Seq<u8>
    recommends
        ws.len() < 256,
{
    seq![ws.len() as u8] + spec_enc_witnesses(ws)
}

pub proof fn lemma_enc_witnesses_snoc(ws: Seq<WitnessV>, w: WitnessV)
    ensures
        spec_enc_witnesses(ws + seq![w]) == spec_enc_witnesses(ws) + spec_enc_witness(w),
    decreases ws.len(),
{
    if ws.len() == 0 {
        assert((ws + seq![w]).drop_first() =~= Seq::<WitnessV>::empty());
        assert((ws + seq![w])[0] == w);
        assert((ws + seq![w]).len() == 1);
        assert(spec_enc_witnesses(Seq::<WitnessV>::empty()) == Seq::<u8>::empty());
        assert(spec_enc_witnesses(ws + seq![w]) == spec_enc_witness(w) + Seq::<u8>::empty());
        assert(spec_enc_witness(w) + Seq::<u8>::empty() =~= spec_enc_witness(w));
        assert(spec_enc_witnesses(ws) + spec_enc_witness(w) =~= spec_enc_witness(w));
    } else {
        lemma_enc_witnesses_snoc(ws.drop_first(), w);
        assert((ws + seq![w]).drop_first() =~= ws.drop_first() + seq![w]);
        assert((ws + seq![w])[0] == ws[0]);
        assert(spec_enc_witness(ws[0]) + (spec_enc_witnesses(ws.drop_first()) + spec_enc_witness(
            w,
        )) =~= (spec_enc_witness(ws[0]) + spec_enc_witnesses(ws.drop_first())) + spec_enc_witness(
            w,
        ));
    }
}

/// Appends `len32(b)`, the 4-byte length prefix and then `b`, to `out`.
pub(crate) fn push_len_prefixed(out: &mut Vec<u8>, b: &Vec<u8>)
    requires
        b@.len() < 0x100000000,
    ensures
        final(out)@ == old(out)@ + len_pref(b@),
{
    push_be(out, b.len() as u128, 4);
    append_bytes(out, b.as_slice());
    proof {
        assert(final(out)@ =~= old(out)@ + len_pref(b@));
    }
}

/// Appends the canonical encoding of one witness to `out`.
fn encode_witness(out: &mut Vec<u8>, w: &Witness)
    requires
        witness_wf(w@),
    ensures
        final(out)@ == old(out)@ + spec_enc_witness(w@),
{
    match w {
        Witness::StateProof { domain, root, proof } => {
            out.push(1u8);
            let dbytes = crate::witness::bytes_of_str(domain);
            push_len_prefixed(out, &dbytes);
            append_bytes(out, root.as_slice());
            push_len_prefixed(out, proof);
            proof {
                assert(final(out)@ =~= old(out)@ + spec_enc_witness(w@));
            }
        },
        Witness::RawData { data } => {
            out.push(2u8);
            push_len_prefixed(out, data);
            proof {
                assert(final(out)@ =~= old(out)@ + spec_enc_witness(w@));
            }
        },
    }
}

/// Serializes a bundle canonically: the byte string both sides of the
/// proving boundary agree on.
pub fn encode_witnesses(ws: &Vec<Witness>) -> (r: Vec<u8>)
    requires
        bundle_wf(views_of(ws@)),
    ensures
        r@ == spec_enc_bundle(views_of(ws@)),
{
    let mut out: Vec<u8> = Vec::new();
    out.push(ws.len() as u8);
    let mut i: usize = 0;
    while i < ws.len()
        invariant
            0 <= i <= ws@.len(),
            bundle_wf(views_of(ws@)),
            out@ == seq![ws@.len() as u8] + spec_enc_witnesses(views_of(ws@).subrange(0, i as int)),
        decreases ws@.len() - i,
    {
        proof {
            assert(views_of(ws@)[i as int] == ws@[i as int]@);
            assert(witness_wf(ws@[i as int]@));
        }
        encode_witness(&mut out, &ws[i]);
        proof {
            let vs = views_of(ws@);
            lemma_enc_witnesses_snoc(vs.subrange(0, i as int), vs[i as int]);
            assert(vs.subrange(0, i as int) + seq![vs[i as int]] =~= vs.subrange(0, i + 1));
        }
        i = i + 1;
    }
    proof {
        assert(views_of(ws@).subrange(0, ws@.len() as int) =~= views_of(ws@));
    }
    out
}

/// Reads a 4-byte big-endian length and then that many bytes, at `pos`.
pub open spec fn dec_bytes_field(b: Seq<u8>, pos: int) -> Option<(Seq<u8>, int)> {
    if 0 <= pos && pos + 4 <= b.len() {
        let n = be_val(b.subrange(pos, pos + 4)) as int;
        if pos + 4 + n <= b.len() {
            Some((b.subrange(pos + 4, pos + 4 + n), pos + 4 + n))
        } else {
            None
        }
    } else {
        None
    }
}

/// Reads one witness at `pos`: a tag byte, then the fields the tag
/// dictates.  Fails closed on an unknown tag, a short buffer, or a
/// domain that is not valid UTF-8.
pub open spec fn dec_witness(b: Seq<u8>, pos: int) -> Option<(WitnessV, int)> {
    if 0 <= pos < b.len() {
        if b[pos] == 1u8 {
            match dec_bytes_field(b, pos + 1) {
                Some((dbytes, p1)) => if valid_utf8(dbytes) && p1 + 32 <= b.len() {
                    match dec_bytes_field(b, p1 + 32) {
                        Some((proof, p2)) => Some(
                            (
                                WitnessV::StateProof {
                                    domain: decode_utf8(dbytes),
                                    root: b.subrange(p1, p1 + 32),
                                    proof,
                                },
                                p2,
                            ),
                        ),
                        None => None,
                    }
                } else {
                    None
                },
                None => None,
            }
        } else if b[pos] == 2u8 {
            match dec_bytes_field(b, pos + 1) {
                Some((data, p1)) => Some((WitnessV::RawData { data }, p1)),
                None => None,
            }
        } else {
            None
        }
    } else {
        None
    }
}

/// Reads `count` consecutive witnesses starting at `pos`.
pub open spec fn dec_witnesses(b: Seq<u8>, pos: int, count: nat) -> Option<(Seq<WitnessV>, int)>
    decreases count,
{
    if count == 0 {
        Some((Seq::<WitnessV>::empty(), pos))
    } else {
        match dec_witness(b, pos) {
            Some((w, p1)) => match dec_witnesses(b, p1, (count - 1) as nat) {
                Some((ws, p2)) => Some((seq![w] + ws, p2)),
                None => None,
            },
            None => None,
        }
    }
}

/// Reads a whole bundle: the count byte, then exactly that many
/// witnesses, consuming the buffer completely.
pub open spec fn spec_dec_bundle(b: Seq<u8>) -> Option<Seq<WitnessV>> {
    if b.len() >= 1 {
        match dec_witnesses(b, 1, b[0] as nat) {
            Some((ws, p)) => if p == b.len() {
                Some(ws)
            } else {
                None
            },
            None => None,
        }
    } else {
        None
    }
}

pub(crate) proof fn lemma_dec_bytes_field(b: Seq<u8>, pos: int, d: Seq<u8>)
    requires
        0 <= pos,
        pos + 4 + d.len() <= b.len(),
        d.len() < 0x100000000,
        b.subrange(pos, pos + 4 + d.len()) == len_pref(d),
    ensures
        dec_bytes_field(b, pos) == Some((d, pos + 4 + d.len())),
{
    lemma_be_bytes_len(d.len() as nat, 4);
    let seg = b.subrange(pos, pos + 4 + d.len());
    assert(b.subrange(pos, pos + 4) =~= be_bytes(d.len() as nat, 4)) by {
        assert forall|i: int| 0 <= i < 4 implies b.subrange(pos, pos + 4)[i] == be_bytes(
            d.len() as nat,
            4,
        )[i] by {
            assert(b.subrange(pos, pos + 4)[i] == seg[i]);
            assert(seg[i] == len_pref(d)[i]);
        }
    }
    assert(pow256(4) == 0x100000000) by {
        reveal_with_fuel(pow256, 5);
    }
    lemma_be_bytes_val(d.len() as nat, 4);
    assert(b.subrange(pos + 4, pos + 4 + d.len()) =~= d) by {
        assert forall|i: int| 0 <= i < d.len() implies b.subrange(pos + 4, pos + 4 + d.len())[i]
            == d[i] by {
            assert(b.subrange(pos + 4, pos + 4 + d.len())[i] == seg[4 + i]);
            assert(seg[4 + i] == len_pref(d)[4 + i]);
        }
    }
}

proof fn lemma_dec_witness(b: Seq<u8>, pos: int, w: WitnessV)
    requires
        witness_wf(w),
        0 <= pos,
        pos + spec_enc_witness(w).len() <= b.len(),
        b.subrange(pos, pos + spec_enc_witness(w).len()) == spec_enc_witness(w),
    ensures
        dec_witness(b, pos) == Some((w, pos + spec_enc_witness(w).len())),
{
    let enc = spec_enc_witness(w);
    let seg = b.subrange(pos, pos + enc.len());
    match w {
        WitnessV::StateProof { domain, root, proof } => {
            let eu = encode_utf8(domain);
            lemma_be_bytes_len(eu.len() as nat, 4);
            lemma_be_bytes_len(proof.len() as nat, 4);
            assert(enc.len() == 1 + 4 + eu.len() + 32 + 4 + proof.len());
            assert(b[pos] == 1u8) by {
                assert(seg[0] == enc[0]);
            }
            let p1 = pos + 1 + 4 + eu.len();
            assert(b.subrange(pos + 1, p1 as int) =~= len_pref(eu)) by {
                assert forall|i: int| 0 <= i < 4 + eu.len() implies b.subrange(pos + 1, p1 as int)[i]
                    == len_pref(eu)[i] by {
                    assert(b.subrange(pos + 1, p1 as int)[i] == seg[1 + i]);
                    assert(seg[1 + i] == enc[1 + i]);
                }
            }
            lemma_dec_bytes_field(b, pos + 1, eu);
            encode_utf8_valid_utf8(domain);
            encode_utf8_decode_utf8(domain);
            assert(b.subrange(p1 as int, p1 + 32) =~= root) by {
                assert forall|i: int| 0 <= i < 32 implies b.subrange(p1 as int, p1 + 32)[i]
                    == root[i] by {
                    assert(b.subrange(p1 as int, p1 + 32)[i] == seg[1 + 4 + eu.len() + i]);
                    assert(seg[1 + 4 + eu.len() + i] == enc[1 + 4 + eu.len() + i]);
                }
            }
            assert(b.subrange(p1 + 32, p1 + 32 + 4 + proof.len()) =~= len_pref(proof)) by {
                assert forall|i: int| 0 <= i < 4 + proof.len() implies b.subrange(
                    p1 + 32,
                    p1 + 32 + 4 + proof.len(),
                )[i] == len_pref(proof)[i] by {
                    assert(b.subrange(p1 + 32, p1 + 32 + 4 + proof.len())[i] == seg[1 + 4
                        + eu.len() + 32 + i]);
                    assert(seg[1 + 4 + eu.len() + 32 + i] == enc[1 + 4 + eu.len() + 32 + i]);
                }
            }
            lemma_dec_bytes_field(b, p1 + 32, proof);
        },
        WitnessV::RawData { data } => {
            lemma_be_bytes_len(data.len() as nat, 4);
            assert(enc.len() == 1 + 4 + data.len());
            assert(b[pos] == 2u8) by {
                assert(seg[0] == enc[0]);
            }
            assert(b.subrange(pos + 1, pos + 1 + 4 + data.len()) =~= len_pref(data)) by {
                assert forall|i: int| 0 <= i < 4 + data.len() implies b.subrange(
                    pos + 1,
                    pos + 1 + 4 + data.len(),
                )[i] == len_pref(data)[i] by {
                    assert(b.subrange(pos + 1, pos + 1 + 4 + data.len())[i] == seg[1 + i]);
                    assert(seg[1 + i] == enc[1 + i]);
                }
            }
            lemma_dec_bytes_field(b, pos + 1, data);
        },
    }
}

proof fn lemma_dec_witnesses(b: Seq<u8>, pos: int, ws: Seq<WitnessV>)
    requires
        forall|i: int| 0 <= i < ws.len() ==> witness_wf(#[trigger] ws[i]),
        0 <= pos,
        pos + spec_enc_witnesses(ws).len() <= b.len(),
        b.subrange(pos, pos + spec_enc_witnesses(ws).len()) == spec_enc_witnesses(ws),
    ensures
        dec_witnesses(b, pos, ws.len()) == Some((ws, pos + spec_enc_witnesses(ws).len())),
    decreases ws.len(),
{
    if ws.len() == 0 {
    } else {
        let e0 = spec_enc_witness(ws[0]);
        let rest = spec_enc_witnesses(ws.drop_first());
        let all = spec_enc_witnesses(ws);
        assert(all == e0 + rest);
        let seg = b.subrange(pos, pos + all.len());
        assert(b.subrange(pos, pos + e0.len()) =~= e0) by {
            assert forall|i: int| 0 <= i < e0.len() implies b.subrange(pos, pos + e0.len())[i]
                == e0[i] by {
                assert(b.subrange(pos, pos + e0.len())[i] == seg[i]);
                assert(seg[i] == all[i]);
            }
        }
        lemma_dec_witness(b, pos, ws[0]);
        assert(b.subrange(pos + e0.len(), pos + e0.len() + rest.len()) =~= rest) by {
            assert forall|i: int| 0 <= i < rest.len() implies b.subrange(
                pos + e0.len(),
                pos + e0.len() + rest.len(),
            )[i] == rest[i] by {
                assert(b.subrange(pos + e0.len(), pos + e0.len() + rest.len())[i] == seg[e0.len()
                    + i]);
                assert(seg[e0.len() + i] == all[e0.len() + i]);
            }
        }
        lemma_dec_witnesses(b, pos + e0.len(), ws.drop_first());
        assert(seq![ws[0]] + ws.drop_first() =~= ws);
    }
}

/// Round trip: decoding the canonical encoding of a well-formed bundle
/// returns exactly that bundle.  Together with the decoder's contract
/// this pins the destination and address bytes down to the last byte.
pub proof fn lemma_bundle_round_trip(ws: Seq<WitnessV>)
    requires
        bundle_wf(ws),
    ensures
        spec_dec_bundle(spec_enc_bundle(ws)) == Some(ws),
{
    let b = spec_enc_bundle(ws);
    assert(b[0] == ws.len() as u8);
    assert((ws.len() as u8) as nat == ws.len());
    assert(b.subrange(1, b.len() as int) =~= spec_enc_witnesses(ws));
    lemma_dec_witnesses(b, 1, ws);
}

/// Copies `buf[start..end]` into a fresh byte string.
fn copy_range(buf: &Vec<u8>, start: usize, end: usize) -> (r: Vec<u8>)
    requires
        start <= end <= buf@.len(),
    ensures
        r@ == buf@.subrange(start as int, end as int),
{
    let mut out: Vec<u8> = Vec::new();
    proof {
        assert(buf@.subrange(start as int, start as int) =~= Seq::<u8>::empty());
    }
    let mut i: usize = start;
    while i < end
        invariant
            start <= i <= end <= buf@.len(),
            out@ == buf@.subrange(start as int, i as int),
        decreases end - i,
    {
        out.push(buf[i]);
        proof {
            assert(buf@.subrange(start as int, i + 1) =~= buf@.subrange(start as int, i as int)
                .push(buf@[i as int]));
        }
        i = i + 1;
    }
    out
}

/// Reads a 4-byte length prefix and then that many bytes, at `pos`.
pub(crate) fn read_field(buf: &Vec<u8>, pos: usize) -> (r: Option<(Vec<u8>, usize)>)
    requires
        pos <= buf@.len(),
    ensures
        match r {
            Some(dp) => dec_bytes_field(buf@, pos as int) == Some((dp.0@, dp.1 as int)) && pos
                < dp.1 <= buf@.len(),
            None => dec_bytes_field(buf@, pos as int) is None,
        },
{
    let blen = buf.len();
    if (pos as u128) + 4 > (blen as u128) {
        return None;
    }
    let n128 = read_be(buf, pos, 4);
    proof {
        lemma_be_val_bound(buf@.subrange(pos as int, pos + 4));
        assert(pow256(4) == 0x100000000) by {
            reveal_with_fuel(pow256, 5);
        }
    }
    let n = n128 as usize;
    if (pos as u128) + 4 + (n as u128) > (blen as u128) {
        return None;
    }
    let start = pos + 4;
    let end = start + n;
    let d = copy_range(buf, start, end);
    Some((d, end))
}

/// Reads one witness at `pos`.
fn decode_one(buf: &Vec<u8>, pos: usize) -> (r: Option<(Witness, usize)>)
    requires
        pos <= buf@.len(),
    ensures
        match r {
            Some(wp) => dec_witness(buf@, pos as int) == Some((wp.0@, wp.1 as int)) && pos < wp.1
                <= buf@.len(),
            None => dec_witness(buf@, pos as int) is None,
        },
{
    let blen = buf.len();
    if pos >= blen {
        return None;
    }
    let tag = buf[pos];
    if tag == 1 {
        let (dbytes, p1) = match read_field(buf, pos + 1) {
            Some(x) => x,
            None => {
                return None;
            },
        };
        let domain = match utf8_to_string(&dbytes) {
            Some(s) => s,
            None => {
                return None;
            },
        };
        if (p1 as u128) + 32 > (blen as u128) {
            return None;
        }
        let root = copy_range(buf, p1, p1 + 32);
        let (proofb, p2) = match read_field(buf, p1 + 32) {
            Some(x) => x,
            None => {
                return None;
            },
        };
        Some((Witness::StateProof { domain, root, proof: proofb }, p2))
    } else if tag == 2 {
        match read_field(buf, pos + 1) {
            Some((data, p1)) => Some((Witness::RawData { data }, p1)),
            None => None,
        }
    } else {
        None
    }
}

/// Deserializes a canonical bundle.
///
/// The contract, together with [`lemma_bundle_round_trip`], states the
/// round trip exactly: on the encoding of any well-formed bundle this
/// returns that bundle, field for field and byte for byte; on every
/// other byte string whose shape is not a canonical bundle it returns
/// `None`.
pub fn decode_witnesses(buf: &Vec<u8>) -> (r: Option<Vec<Witness>>)
    ensures
        match r {
            Some(ws) => spec_dec_bundle(buf@) == Some(views_of(ws@)),
            None => spec_dec_bundle(buf@) is None,
        },
{
    let blen = buf.len();
    if blen == 0 {
        return None;
    }
    let count = buf[0];
    let mut acc: Vec<Witness> = Vec::new();
    let mut pos: usize = 1;
    let mut k: u8 = 0;
    proof {
        assert(views_of(acc@) =~= Seq::<WitnessV>::empty());
    }
    while k < count
        invariant
            0 <= k <= count,
            1 <= pos <= buf@.len(),
            buf@.len() >= 1,
            count == buf@[0],
            acc@.len() == k,
            match dec_witnesses(buf@, pos as int, (count - k) as nat) {
                Some(wsp) => dec_witnesses(buf@, 1, count as nat) == Some(
                    (views_of(acc@) + wsp.0, wsp.1),
                ),
                None => dec_witnesses(buf@, 1, count as nat) is None,
            },
        decreases count - k,
    {
        let (w, p2) = match decode_one(buf, pos) {
            Some(x) => x,
            None => {
                return None;
            },
        };
        proof {
            let rem = (count - k) as nat;
            assert(rem > 0);
            match dec_witnesses(buf@, p2 as int, (rem - 1) as nat) {
                Some(wsp) => {
                    assert(dec_witnesses(buf@, pos as int, rem) == Some(
                        (seq![w@] + wsp.0, wsp.1),
                    ));
                    assert(views_of(acc@.push(w)) =~= views_of(acc@) + seq![w@]);
                    assert(views_of(acc@) + (seq![w@] + wsp.0) =~= (views_of(acc@) + seq![w@])
                        + wsp.0);
                },
                None => {
                    assert(dec_witnesses(buf@, pos as int, rem) is None);
                },
            }
        }
        acc.push(w);
        pos = p2;
        k = k + 1;
    }
    proof {
        assert(views_of(acc@) + Seq::<WitnessV>::empty() =~= views_of(acc@));
    }
    if pos == blen {
        Some(acc)
    } else {
        None
    }
}

} // verus!
