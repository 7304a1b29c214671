use vstd::prelude::*;

verus! {

use vstd::arithmetic::div_mod::lemma_div_denominator;
use vstd::arithmetic::div_mod::lemma_multiply_divide_lt;

// Big-endian byte strings are the one numeric encoding the pipeline uses:
// slot indices, registry ids, block numbers, lengths and mint amounts all
// travel as fixed-width big-endian fields, so that every serialized form
// is canonical and reproducible bit for bit.

/// 256 raised to `k`: the number of byte strings of length `k`.
pub open spec fn pow256(k: nat) -> nat
    decreases k,
{
    if k == 0 {
        1
    } else {
        256 * pow256((k - 1) as nat)
    }
}

pub proof fn lemma_pow256_pos(k: nat)
    ensures
        pow256(k) >= 1,
    decreases k,
{
    if k > 0 {
        lemma_pow256_pos((k - 1) as nat);
    }
}

pub proof fn lemma_pow256_le(a: nat, b: nat)
    requires
        a <= b,
    ensures
        pow256(a) <= pow256(b),
    decreases b,
{
    if a < b {
        lemma_pow256_le(a, (b - 1) as nat);
        lemma_pow256_pos((b - 1) as nat);
    }
}

/// The value of a byte string read as a big-endian unsigned integer.
pub open spec fn be_val(s: Seq<u8>) -> nat
    decreases s.len(),
{
    if s.len() == 0 {
        0
    } else {
        be_val(s.drop_last()) * 256 + s.last() as nat
    }
}

/// The canonical `len`-byte big-endian encoding of `n` (mod `256^len`).
pub open spec fn be_bytes(n: nat, len: nat) -> Seq<u8>
    decreases len,
{
    if len == 0 {
        Seq::<u8>::empty()
    } else {
        be_bytes(n / 256, (len - 1) as nat).push((n % 256) as u8)
    }
}

pub proof fn lemma_be_bytes_len(n: nat, len: nat)
    ensures
        be_bytes(n, len).len() == len,
    decreases len,
{
    if len > 0 {
        lemma_be_bytes_len(n / 256, (len - 1) as nat);
    }
}

/// A value below `256^len` survives the round trip through its
/// `len`-byte big-endian encoding.
pub proof fn lemma_be_bytes_val(n: nat, len: nat)
    requires
        n < pow256(len),
    ensures
        be_val(be_bytes(n, len)) == n,
    decreases len,
{
    if len > 0 {
        lemma_pow256_pos((len - 1) as nat);
        lemma_multiply_divide_lt(n as int, pow256((len - 1) as nat) as int, 256);
        lemma_be_bytes_val(n / 256, (len - 1) as nat);
        lemma_be_bytes_len(n / 256, (len - 1) as nat);
        let enc = be_bytes(n, len);
        assert(enc.drop_last() =~= be_bytes(n / 256, (len - 1) as nat));
        assert(n == (n / 256) * 256 + n % 256) by (nonlinear_arith);
    }
}

pub proof fn lemma_be_val_bound(s: Seq<u8>)
    ensures
        be_val(s) < pow256(s.len()),
    decreases s.len(),
{
    if s.len() > 0 {
        lemma_be_val_bound(s.drop_last());
        assert(be_val(s.drop_last()) * 256 + 255 < pow256(s.len())) by (nonlinear_arith)
            requires
                be_val(s.drop_last()) < pow256((s.len() - 1) as nat),
                pow256(s.len()) == 256 * pow256((s.len() - 1) as nat),
        ;
    }
}

/// Concatenation shifts the leading string by the width of the trailing one.
pub proof fn lemma_be_val_append(s: Seq<u8>, t: Seq<u8>)
    ensures
        be_val(s + t) == be_val(s) * pow256(t.len()) + be_val(t),
    decreases t.len(),
{
    assert(be_val(s) * pow256(t.len()) >= 0) by (nonlinear_arith);
    if t.len() == 0 {
        assert(s + t =~= s);
        assert(pow256(0) == 1);
        assert(be_val(t) == 0);
        assert(be_val(s) * 1 == be_val(s)) by (nonlinear_arith);
        assert(be_val(s + t) == be_val(s) * pow256(t.len()) + be_val(t));
    } else {
        lemma_be_val_append(s, t.drop_last());
        let st = s + t;
        assert(st.drop_last() =~= s + t.drop_last());
        assert(st.last() == t.last());
        let a = be_val(s);
        let p = pow256((t.len() - 1) as nat);
        let b = be_val(t.drop_last());
        assert(be_val(st) == (a * p + b) * 256 + t.last() as nat);
        assert((a * p + b) * 256 + t.last() as nat == a * (256 * p) + (b * 256 + t.last() as nat))
            by (nonlinear_arith);
        assert(pow256(t.len()) == 256 * p);
        assert(a * (256 * p) == a * pow256(t.len()));
        assert(be_val(t) == b * 256 + t.last() as nat);
        assert(be_val(st) == a * pow256(t.len()) + be_val(t));
        assert(be_val(s + t) == be_val(s) * pow256(t.len()) + be_val(t));
    }
}

/// Appends the `len`-byte big-endian encoding of `x` to `out`.
pub fn push_be(out: &mut Vec<u8>, x: u128, len: usize)
    ensures
        final(out)@ == old(out)@ + be_bytes(x as nat, len as nat),
    decreases len,
{
    if len == 0 {
        proof {
            assert(out@ =~= out@ + be_bytes(x as nat, 0));
        }
    } else {
        push_be(out, x / 256, len - 1);
        out.push((x % 256) as u8);
        proof {
            assert(out@ =~= old(out)@ + be_bytes(x as nat, len as nat));
        }
    }
}

/// Appends all of `src` to `dst`.
pub fn append_bytes(dst: &mut Vec<u8>, src: &[u8])
    ensures
        final(dst)@ == old(dst)@ + src@,
{
    dst.extend_from_slice(src);
    proof {
        assert forall|i: int| 0 <= i < dst@.len() implies dst@[i] == (old(dst)@ + src@)[i] by {
            if i >= old(dst)@.len() {
                assert(cloned::<u8>(src@[i - old(dst)@.len()], dst@[i]));
            }
        }
        assert(dst@ =~= old(dst)@ + src@);
    }
}

/// Reads `len` bytes at `pos` as a big-endian unsigned integer.
pub fn read_be(buf: &Vec<u8>, pos: usize, len: usize) -> (r: u128)
    requires
        pos + len <= buf@.len(),
        len <= 16,
    ensures
        r as nat == be_val(buf@.subrange(pos as int, pos + len)),
    decreases len,
{
    if len == 0 {
        proof {
            assert(buf@.subrange(pos as int, pos as int) =~= Seq::<u8>::empty());
        }
        0
    } else {
        let n = buf.len();
        let hi = read_be(buf, pos, len - 1);
        let lo = buf[pos + len - 1];
        proof {
            let s = buf@.subrange(pos as int, pos + len);
            assert(s.drop_last() =~= buf@.subrange(pos as int, pos + len - 1));
            assert(s.last() == buf@[pos + len - 1]);
            lemma_be_val_bound(s.drop_last());
            lemma_pow256_le((len - 1) as nat, 15);
            assert(pow256(15) == 0x1000000000000000000000000000000) by {
                reveal_with_fuel(pow256, 16);
            }
            assert(hi * 256 + lo < 0x100000000000000000000000000000000) by (nonlinear_arith)
                requires
                    hi < 0x1000000000000000000000000000000,
                    lo < 256,
            ;
        }
        hi * 256 + lo as u128
    }
}

} // verus!
