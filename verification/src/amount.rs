use vstd::prelude::*;

verus! {

use crate::bytesfmt::be_val;
use crate::bytesfmt::lemma_be_val_append;
use crate::bytesfmt::lemma_be_val_bound;
use crate::bytesfmt::pow256;
use crate::bytesfmt::read_be;
use crate::errors::PipelineError;

/// The first value too wide for a mint amount: 2^128.
pub open spec fn amount_limit() -> nat {
    0x100000000000000000000000000000000nat
}

/// A byte string reads as zero exactly when all its bytes are zero.
pub proof fn lemma_be_val_zero_iff(s: Seq<u8>)
    ensures
        be_val(s) == 0 <==> (forall|i: int| 0 <= i < s.len() ==> s[i] == 0),
    decreases s.len(),
{
    if s.len() > 0 {
        lemma_be_val_zero_iff(s.drop_last());
        if be_val(s) == 0 {
            assert(forall|i: int| 0 <= i < s.len() - 1 ==> s.drop_last()[i] == 0);
            assert(forall|i: int|
                0 <= i < s.len() ==> s[i] == if i < s.len() - 1 {
                    s.drop_last()[i]
                } else {
                    s.last()
                });
        } else {
            if forall|i: int| 0 <= i < s.len() ==> s[i] == 0 {
                assert(forall|i: int| 0 <= i < s.len() - 1 ==> s.drop_last()[i] == s[i]);
                assert(s.last() == 0);
            }
        }
    }
}

/// A 32-byte balance whose high half holds any non-zero byte is at least
/// 2^128.
proof fn lemma_high_nonzero(value: Seq<u8>, k: int)
    requires
        value.len() == 32,
        0 <= k < 16,
        value[k] != 0,
    ensures
        be_val(value) >= amount_limit(),
{
    let high = value.subrange(0, 16);
    let low = value.subrange(16, 32);
    assert(value =~= high + low);
    lemma_be_val_append(high, low);
    lemma_be_val_zero_iff(high);
    assert(high[k] != 0);
    assert(be_val(high) >= 1);
    assert(pow256(16) == amount_limit()) by {
        reveal_with_fuel(pow256, 17);
    }
    assert(be_val(high) * pow256(16) >= pow256(16)) by (nonlinear_arith)
        requires
            be_val(high) >= 1,
    ;
}

/// Converts a 32-byte big-endian balance into the 128-bit mint amount.
///
/// Succeeds on exactly the values in `[0, 2^128)` and returns each of
/// them unchanged; every wider value fails with `OverflowError`, and
/// nothing is ever truncated or wrapped.
pub fn amount_from_be_bytes(value: &Vec<u8>) -> (r: Result<u128, PipelineError>)
    requires
        value@.len() == 32,
    ensures
        match r {
            Ok(v) => be_val(value@) < amount_limit() && v as nat == be_val(value@),
            Err(e) => be_val(value@) >= amount_limit() && e == PipelineError::OverflowError,
        },
{
    let mut i: usize = 0;
    while i < 16
        invariant
            0 <= i <= 16,
            value@.len() == 32,
            forall|j: int| 0 <= j < i ==> value@[j] == 0,
        decreases 16 - i,
    {
        if value[i] != 0 {
            proof {
                lemma_high_nonzero(value@, i as int);
            }
            return Err(PipelineError::OverflowError);
        }
        i = i + 1;
    }
    let v = read_be(value, 16, 16);
    proof {
        let high = value@.subrange(0, 16);
        let low = value@.subrange(16, 32);
        assert(value@ =~= high + low);
        lemma_be_val_append(high, low);
        lemma_be_val_zero_iff(high);
        assert(be_val(high) == 0);
        assert(be_val(high) * pow256(16) == 0) by (nonlinear_arith)
            requires
                be_val(high) == 0,
        ;
        lemma_be_val_bound(low);
        assert(pow256(16) == amount_limit()) by {
            reveal_with_fuel(pow256, 17);
        }
    }
    Ok(v)
}

} // verus!
