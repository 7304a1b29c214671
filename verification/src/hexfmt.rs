use vstd::prelude::*;

verus! {

// Chain addresses travel as "0x"-prefixed hexadecimal strings; the
// provider additionally expects storage keys in the same shape.  Both
// directions of that encoding are small enough to state exactly, so they
// are implemented and proved here rather than taken on trust.

/// True for the ASCII bytes `0`..`9`, `a`..`f`, `A`..`F`.
pub open spec fn is_hex_digit(b: u8) -> bool {
    (48 <= b <= 57) || (97 <= b <= 102) || (65 <= b <= 70)
}

/// The numeric value of a hexadecimal digit byte.
pub open spec fn hex_digit_val(b: u8) -> u8
    recommends
        is_hex_digit(b),
{
    if 48 <= b <= 57 {
        (b - 48) as u8
    } else if 97 <= b <= 102 {
        (b - 87) as u8
    } else if 65 <= b <= 70 {
        (b - 55) as u8
    } else {
        0
    }
}

/// True when every byte of `s` is a hexadecimal digit.
pub open spec fn is_hex_str(s: Seq<u8>) -> bool {
    forall|i: int| 0 <= i < s.len() ==> is_hex_digit(#[trigger] s[i])
}

/// The bytes denoted by an even-length string of hexadecimal digits,
/// two digits per byte, most significant digit first.
pub open spec fn hex_pairs_val(s: Seq<u8>) -> Seq<u8>
    recommends
        s.len() % 2 == 0,
    decreases s.len(),
{
    if s.len() < 2 {
        Seq::<u8>::empty()
    } else {
        hex_pairs_val(s.drop_last().drop_last()).push(
            (hex_digit_val(s[s.len() - 2]) * 16 + hex_digit_val(s[s.len() - 1])) as u8,
        )
    }
}

/// The lower-case hexadecimal digit byte for a value below 16.
pub open spec fn hex_lower_digit(v: u8) -> u8
    recommends
        v < 16,
{
    if v < 10 {
        (48 + v) as u8
    } else {
        (87 + v) as u8
    }
}

/// The lower-case hexadecimal spelling of a byte string, two digits per
/// byte, without a prefix.
pub open spec fn hex_encode_bytes(s: Seq<u8>) -> Seq<u8>
    decreases s.len(),
{
    if s.len() == 0 {
        Seq::<u8>::empty()
    } else {
        hex_encode_bytes(s.drop_last()) + seq![
            hex_lower_digit(s.last() / 16),
            hex_lower_digit((s.last() % 16) as u8),
        ]
    }
}

/// What a well-formed `0x`-prefixed hexadecimal string of exactly `n`
/// bytes denotes: `0x`, then `2 n` digits spelling the bytes.
pub open spec fn spec_parse_hex_fixed(s: Seq<u8>, n: nat) -> Option<Seq<u8>> {
    if s.len() == 2 + 2 * n && s[0] == 48 && s[1] == 120 && is_hex_str(
        s.subrange(2, s.len() as int),
    ) {
        Some(hex_pairs_val(s.subrange(2, s.len() as int)))
    } else {
        None
    }
}

/// What a well-formed EVM address string denotes: `0x` followed by
/// exactly 40 hexadecimal digits, spelling 20 bytes.
pub open spec fn spec_parse_eth_address(s: Seq<u8>) -> Option<Seq<u8>> {
    spec_parse_hex_fixed(s, 20)
}

/// Spelling bytes as lower-case hexadecimal and reading the digits back
/// returns the original bytes: the two codecs are mutual inverses.
pub proof fn lemma_hex_round_trip(s: Seq<u8>)
    ensures
        hex_encode_bytes(s).len() == 2 * s.len(),
        is_hex_str(hex_encode_bytes(s)),
        hex_pairs_val(hex_encode_bytes(s)) == s,
    decreases s.len(),
{
    if s.len() > 0 {
        lemma_hex_round_trip(s.drop_last());
        let e = hex_encode_bytes(s);
        let ep = hex_encode_bytes(s.drop_last());
        assert(e.drop_last().drop_last() =~= ep);
        assert(hex_digit_val(e[e.len() - 2]) == s.last() / 16);
        assert(hex_digit_val(e[e.len() - 1]) == s.last() % 16);
        assert((s.last() / 16) * 16 + s.last() % 16 == s.last());
        assert(hex_pairs_val(e) =~= s);
        assert forall|i: int| 0 <= i < e.len() implies is_hex_digit(#[trigger] e[i]) by {
            if i < e.len() - 2 {
                assert(e[i] == ep[i]);
            }
        }
    }
}

/// Reads one hexadecimal digit byte; rejects everything else.
pub fn hex_digit(b: u8) -> (r: Option<u8>)
    ensures
        match r {
            Some(v) => is_hex_digit(b) && v == hex_digit_val(b),
            None => !is_hex_digit(b),
        },
{
    if 48 <= b && b <= 57 {
        Some(b - 48)
    } else if 97 <= b && b <= 102 {
        Some(b - 87)
    } else if 65 <= b && b <= 70 {
        Some(b - 55)
    } else {
        None
    }
}

/// Parses a `0x`-prefixed hexadecimal string of exactly `n` bytes into
/// those raw bytes.  Returns `None` exactly on inputs of the wrong
/// shape.
pub fn parse_hex_fixed(s: &[u8], n: usize) -> (r: Option<Vec<u8>>)
    ensures
        match r {
            Some(v) => spec_parse_hex_fixed(s@, n as nat) == Some(v@) && v@.len() == n,
            None => spec_parse_hex_fixed(s@, n as nat) is None,
        },
{
    if (s.len() as u128) != 2 + 2 * (n as u128) {
        return None;
    }
    if s[0] != 48 || s[1] != 120 {
        return None;
    }
    let digits_g: Ghost<Seq<u8>> = Ghost(s@.subrange(2, s@.len() as int));
    let mut out: Vec<u8> = Vec::new();
    let mut i: usize = 0;
    while i < n
        invariant
            0 <= i <= n,
            s@.len() == 2 + 2 * n,
            2 + 2 * n <= usize::MAX,
            out@ == hex_pairs_val(digits_g@.subrange(0, 2 * i)),
            out@.len() == i,
            digits_g@ == s@.subrange(2, s@.len() as int),
            is_hex_str(digits_g@.subrange(0, 2 * i)),
        decreases n - i,
    {
        let hi = match hex_digit(s[2 + 2 * i]) {
            Some(v) => v,
            None => {
                proof {
                    assert(!is_hex_digit(digits_g@[2 * i as int]));
                }
                return None;
            },
        };
        let lo = match hex_digit(s[3 + 2 * i]) {
            Some(v) => v,
            None => {
                proof {
                    assert(!is_hex_digit(digits_g@[2 * i + 1]));
                }
                return None;
            },
        };
        out.push(hi * 16 + lo);
        proof {
            let pre = digits_g@.subrange(0, 2 * i as int);
            let cur = digits_g@.subrange(0, 2 * i + 2);
            assert(cur.drop_last().drop_last() =~= pre);
            assert(cur[cur.len() - 2] == s@[2 + 2 * i as int]);
            assert(cur[cur.len() - 1] == s@[3 + 2 * i as int]);
            assert(out@ =~= hex_pairs_val(cur));
        }
        i = i + 1;
    }
    proof {
        assert(digits_g@.subrange(0, 2 * n as int) =~= digits_g@);
    }
    Some(out)
}

/// Parses a `0x`-prefixed, 40-digit EVM address string into its 20 raw
/// bytes.  Returns `None` exactly on inputs of the wrong shape.
pub fn parse_eth_address(s: &[u8]) -> (r: Option<Vec<u8>>)
    ensures
        match r {
            Some(v) => spec_parse_eth_address(s@) == Some(v@) && v@.len() == 20,
            None => spec_parse_eth_address(s@) is None,
        },
{
    parse_hex_fixed(s, 20)
}

/// Spells bytes as a `0x`-prefixed lower-case hexadecimal ASCII string,
/// the shape the proof provider expects for addresses and storage keys.
pub fn hex_0x(bytes: &Vec<u8>) -> (r: Vec<u8>)
    ensures
        r@ == seq![48u8, 120u8] + hex_encode_bytes(bytes@),
{
    let mut out: Vec<u8> = Vec::new();
    out.push(48);
    out.push(120);
    let mut i: usize = 0;
    while i < bytes.len()
        invariant
            0 <= i <= bytes@.len(),
            out@ == seq![48u8, 120u8] + hex_encode_bytes(bytes@.subrange(0, i as int)),
        decreases bytes@.len() - i,
    {
        let b = bytes[i];
        let hi = b / 16;
        let lo = b % 16;
        out.push(if hi < 10 { 48 + hi } else { 87 + hi });
        out.push(if lo < 10 { 48 + lo } else { 87 + lo });
        proof {
            let pre = bytes@.subrange(0, i as int);
            let cur = bytes@.subrange(0, i + 1);
            assert(cur.drop_last() =~= pre);
            assert(cur.last() == bytes@[i as int]);
            assert(out@ =~= seq![48u8, 120u8] + hex_encode_bytes(cur));
        }
        i = i + 1;
    }
    proof {
        assert(bytes@.subrange(0, bytes@.len() as int) =~= bytes@);
    }
    out
}

} // verus!
