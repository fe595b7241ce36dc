//! Fixed-width lowercase hex codec for 64-bit values, the building block of
//! the snapshot format and the button payload.
use vstd::prelude::*;

verus! {

/// The lowercase hex digit of a value below 16.
pub open spec fn hexd(d: u8) -> u8 {
    if d < 10 {
        (48 + d) as u8
    } else {
        (87 + d) as u8
    }
}

/// Whether `b` is a lowercase hex digit.
pub open spec fn is_hex_digit(b: u8) -> bool {
    (48 <= b && b <= 57) || (97 <= b && b <= 102)
}

/// The value of a lowercase hex digit (zero on other bytes).
pub open spec fn hexv(b: u8) -> u8 {
    if 48 <= b && b <= 57 {
        (b - 48) as u8
    } else if 97 <= b && b <= 102 {
        (b - 87) as u8
    } else {
        0
    }
}

/// The 16 hex digits of `n`, most significant first.
pub open spec fn hex16_seq(n: u64) -> Seq<u8> {
    seq![
        hexd(((n >> 60) & 0xf) as u8),
        hexd(((n >> 56) & 0xf) as u8),
        hexd(((n >> 52) & 0xf) as u8),
        hexd(((n >> 48) & 0xf) as u8),
        hexd(((n >> 44) & 0xf) as u8),
        hexd(((n >> 40) & 0xf) as u8),
        hexd(((n >> 36) & 0xf) as u8),
        hexd(((n >> 32) & 0xf) as u8),
        hexd(((n >> 28) & 0xf) as u8),
        hexd(((n >> 24) & 0xf) as u8),
        hexd(((n >> 20) & 0xf) as u8),
        hexd(((n >> 16) & 0xf) as u8),
        hexd(((n >> 12) & 0xf) as u8),
        hexd(((n >> 8) & 0xf) as u8),
        hexd(((n >> 4) & 0xf) as u8),
        hexd((n & 0xf) as u8),
    ]
}

/// Whether `s` is exactly 16 lowercase hex digits.
pub open spec fn hex16_ok(s: Seq<u8>) -> bool {
    s.len() == 16 && forall|i: int| 0 <= i < 16 ==> is_hex_digit(#[trigger] s[i])
}

/// The value of 16 hex digits, most significant first.
pub open spec fn hex16_val(s: Seq<u8>) -> u64 {
    ((hexv(s[0]) as u64) << 60) | ((hexv(s[1]) as u64) << 56) | ((hexv(s[2]) as u64) << 52) | ((
    hexv(s[3]) as u64) << 48) | ((hexv(s[4]) as u64) << 44) | ((hexv(s[5]) as u64) << 40) | ((hexv(
        s[6],
    ) as u64) << 36) | ((hexv(s[7]) as u64) << 32) | ((hexv(s[8]) as u64) << 28) | ((hexv(
        s[9],
    ) as u64) << 24) | ((hexv(s[10]) as u64) << 20) | ((hexv(s[11]) as u64) << 16) | ((hexv(
        s[12],
    ) as u64) << 12) | ((hexv(s[13]) as u64) << 8) | ((hexv(s[14]) as u64) << 4) | (hexv(
        s[15],
    ) as u64)
}

/// A digit below 16 encodes to a hex digit that decodes back to it.
proof fn lemma_hexd_roundtrip(d: u8)
    requires
        d < 16,
    ensures
        is_hex_digit(hexd(d)),
        hexv(hexd(d)) == d,
{
}

/// A hex digit decodes to a value below 16 that encodes back to it.
proof fn lemma_hexd_inverse(b: u8)
    requires
        is_hex_digit(b),
    ensures
        hexv(b) < 16,
        hexd(hexv(b)) == b,
{
}

/// Every nibble of a 64-bit value is below 16.
proof fn lemma_nibbles_low(n: u64)
    ensures
        (n >> 60) & 0xf < 16,
        (n >> 56) & 0xf < 16,
        (n >> 52) & 0xf < 16,
        (n >> 48) & 0xf < 16,
        (n >> 44) & 0xf < 16,
        (n >> 40) & 0xf < 16,
        (n >> 36) & 0xf < 16,
        (n >> 32) & 0xf < 16,
        (n >> 28) & 0xf < 16,
        (n >> 24) & 0xf < 16,
        (n >> 20) & 0xf < 16,
        (n >> 16) & 0xf < 16,
        (n >> 12) & 0xf < 16,
        (n >> 8) & 0xf < 16,
        (n >> 4) & 0xf < 16,
        n & 0xf < 16,
{
    assert((n >> 60) & 0xf < 16 && (n >> 56) & 0xf < 16 && (n >> 52) & 0xf < 16 && (n >> 48) & 0xf
        < 16 && (n >> 44) & 0xf < 16 && (n >> 40) & 0xf < 16 && (n >> 36) & 0xf < 16 && (n >> 32)
        & 0xf < 16 && (n >> 28) & 0xf < 16 && (n >> 24) & 0xf < 16 && (n >> 20) & 0xf < 16 && (n
        >> 16) & 0xf < 16 && (n >> 12) & 0xf < 16 && (n >> 8) & 0xf < 16 && (n >> 4) & 0xf < 16 && n
        & 0xf < 16) by (bit_vector);
}

/// The 16 nibbles of a value reassemble to the value.
proof fn lemma_nibbles_assemble(n: u64)
    ensures
        (((n >> 60) & 0xf) << 60) | (((n >> 56) & 0xf) << 56) | (((n >> 52) & 0xf) << 52) | (((n
            >> 48) & 0xf) << 48) | (((n >> 44) & 0xf) << 44) | (((n >> 40) & 0xf) << 40) | (((n
            >> 36) & 0xf) << 36) | (((n >> 32) & 0xf) << 32) | (((n >> 28) & 0xf) << 28) | (((n
            >> 24) & 0xf) << 24) | (((n >> 20) & 0xf) << 20) | (((n >> 16) & 0xf) << 16) | (((n
            >> 12) & 0xf) << 12) | (((n >> 8) & 0xf) << 8) | (((n >> 4) & 0xf) << 4) | (n & 0xf)
            == n,
{
    assert((((n >> 60) & 0xf) << 60) | (((n >> 56) & 0xf) << 56) | (((n >> 52) & 0xf) << 52) | (((n
        >> 48) & 0xf) << 48) | (((n >> 44) & 0xf) << 44) | (((n >> 40) & 0xf) << 40) | (((n >> 36)
        & 0xf) << 36) | (((n >> 32) & 0xf) << 32) | (((n >> 28) & 0xf) << 28) | (((n >> 24) & 0xf)
        << 24) | (((n >> 20) & 0xf) << 20) | (((n >> 16) & 0xf) << 16) | (((n >> 12) & 0xf) << 12)
        | (((n >> 8) & 0xf) << 8) | (((n >> 4) & 0xf) << 4) | (n & 0xf) == n) by (bit_vector);
}

/// Law: encoding a value to 16 hex digits and reading them back yields the
/// value, and the digits pass the digit check.
pub proof fn lemma_hex16_roundtrip(n: u64)
    ensures
        hex16_ok(hex16_seq(n)),
        hex16_val(hex16_seq(n)) == n,
{
    lemma_nibbles_low(n);
    let s = hex16_seq(n);
    lemma_hexd_roundtrip(((n >> 60) & 0xf) as u8);
    lemma_hexd_roundtrip(((n >> 56) & 0xf) as u8);
    lemma_hexd_roundtrip(((n >> 52) & 0xf) as u8);
    lemma_hexd_roundtrip(((n >> 48) & 0xf) as u8);
    lemma_hexd_roundtrip(((n >> 44) & 0xf) as u8);
    lemma_hexd_roundtrip(((n >> 40) & 0xf) as u8);
    lemma_hexd_roundtrip(((n >> 36) & 0xf) as u8);
    lemma_hexd_roundtrip(((n >> 32) & 0xf) as u8);
    lemma_hexd_roundtrip(((n >> 28) & 0xf) as u8);
    lemma_hexd_roundtrip(((n >> 24) & 0xf) as u8);
    lemma_hexd_roundtrip(((n >> 20) & 0xf) as u8);
    lemma_hexd_roundtrip(((n >> 16) & 0xf) as u8);
    lemma_hexd_roundtrip(((n >> 12) & 0xf) as u8);
    lemma_hexd_roundtrip(((n >> 8) & 0xf) as u8);
    lemma_hexd_roundtrip(((n >> 4) & 0xf) as u8);
    lemma_hexd_roundtrip((n & 0xf) as u8);
    assert forall|i: int| 0 <= i < 16 implies is_hex_digit(#[trigger] s[i]) by {
        assert(s[i] == hexd(
            if i == 0 {
                ((n >> 60) & 0xf) as u8
            } else if i == 1 {
                ((n >> 56) & 0xf) as u8
            } else if i == 2 {
                ((n >> 52) & 0xf) as u8
            } else if i == 3 {
                ((n >> 48) & 0xf) as u8
            } else if i == 4 {
                ((n >> 44) & 0xf) as u8
            } else if i == 5 {
                ((n >> 40) & 0xf) as u8
            } else if i == 6 {
                ((n >> 36) & 0xf) as u8
            } else if i == 7 {
                ((n >> 32) & 0xf) as u8
            } else if i == 8 {
                ((n >> 28) & 0xf) as u8
            } else if i == 9 {
                ((n >> 24) & 0xf) as u8
            } else if i == 10 {
                ((n >> 20) & 0xf) as u8
            } else if i == 11 {
                ((n >> 16) & 0xf) as u8
            } else if i == 12 {
                ((n >> 12) & 0xf) as u8
            } else if i == 13 {
                ((n >> 8) & 0xf) as u8
            } else if i == 14 {
                ((n >> 4) & 0xf) as u8
            } else {
                (n & 0xf) as u8
            },
        ));
    }
    lemma_nibbles_assemble(n);
}

/// Law: 16 hex digits re-encode from their value unchanged.
pub proof fn lemma_hex16_inverse(s: Seq<u8>)
    requires
        hex16_ok(s),
    ensures
        hex16_seq(hex16_val(s)) == s,
{
    let v0 = hexv(s[0]);
    let v1 = hexv(s[1]);
    let v2 = hexv(s[2]);
    let v3 = hexv(s[3]);
    let v4 = hexv(s[4]);
    let v5 = hexv(s[5]);
    let v6 = hexv(s[6]);
    let v7 = hexv(s[7]);
    let v8 = hexv(s[8]);
    let v9 = hexv(s[9]);
    let v10 = hexv(s[10]);
    let v11 = hexv(s[11]);
    let v12 = hexv(s[12]);
    let v13 = hexv(s[13]);
    let v14 = hexv(s[14]);
    let v15 = hexv(s[15]);
    lemma_hexd_inverse(s[0]);
    lemma_hexd_inverse(s[1]);
    lemma_hexd_inverse(s[2]);
    lemma_hexd_inverse(s[3]);
    lemma_hexd_inverse(s[4]);
    lemma_hexd_inverse(s[5]);
    lemma_hexd_inverse(s[6]);
    lemma_hexd_inverse(s[7]);
    lemma_hexd_inverse(s[8]);
    lemma_hexd_inverse(s[9]);
    lemma_hexd_inverse(s[10]);
    lemma_hexd_inverse(s[11]);
    lemma_hexd_inverse(s[12]);
    lemma_hexd_inverse(s[13]);
    lemma_hexd_inverse(s[14]);
    lemma_hexd_inverse(s[15]);
    let x = hex16_val(s);
    assert((x >> 60) & 0xf == v0 && (x >> 56) & 0xf == v1 && (x >> 52) & 0xf == v2 && (x >> 48)
        & 0xf == v3 && (x >> 44) & 0xf == v4 && (x >> 40) & 0xf == v5 && (x >> 36) & 0xf == v6 && (
    x >> 32) & 0xf == v7 && (x >> 28) & 0xf == v8 && (x >> 24) & 0xf == v9 && (x >> 20) & 0xf == v10
        && (x >> 16) & 0xf == v11 && (x >> 12) & 0xf == v12 && (x >> 8) & 0xf == v13 && (x >> 4)
        & 0xf == v14 && x & 0xf == v15) by (bit_vector)
        requires
            x == ((v0 as u64) << 60) | ((v1 as u64) << 56) | ((v2 as u64) << 52) | ((v3 as u64)
                << 48) | ((v4 as u64) << 44) | ((v5 as u64) << 40) | ((v6 as u64) << 36) | ((
            v7 as u64) << 32) | ((v8 as u64) << 28) | ((v9 as u64) << 24) | ((v10 as u64) << 20) | (
            (v11 as u64) << 16) | ((v12 as u64) << 12) | ((v13 as u64) << 8) | ((v14 as u64) << 4)
                | (v15 as u64),
            v0 < 16,
            v1 < 16,
            v2 < 16,
            v3 < 16,
            v4 < 16,
            v5 < 16,
            v6 < 16,
            v7 < 16,
            v8 < 16,
            v9 < 16,
            v10 < 16,
            v11 < 16,
            v12 < 16,
            v13 < 16,
            v14 < 16,
            v15 < 16,
    ;
    assert(hex16_seq(x) =~= s);
}

/// The executable digit encoder.
fn hex_digit(d: u8) -> (r: u8)
    requires
        d < 16,
    ensures
        r == hexd(d),
{
    if d < 10 {
        48 + d
    } else {
        87 + d
    }
}

/// The executable digit decoder.
fn hex_val(b: u8) -> (r: Option<u8>)
    ensures
        match r {
            Some(v) => is_hex_digit(b) && v == hexv(b),
            None => !is_hex_digit(b),
        },
{
    if 48 <= b && b <= 57 {
        Some(b - 48)
    } else if 97 <= b && b <= 102 {
        Some(b - 87)
    } else {
        None
    }
}

/// Appends the 16 hex digits of `n` to `out`.
pub fn push_hex16(out: &mut Vec<u8>, n: u64)
    ensures
        final(out)@ == old(out)@ + hex16_seq(n),
{
    proof {
        lemma_nibbles_low(n);
    }
    out.push(hex_digit(((n >> 60) & 0xf) as u8));
    out.push(hex_digit(((n >> 56) & 0xf) as u8));
    out.push(hex_digit(((n >> 52) & 0xf) as u8));
    out.push(hex_digit(((n >> 48) & 0xf) as u8));
    out.push(hex_digit(((n >> 44) & 0xf) as u8));
    out.push(hex_digit(((n >> 40) & 0xf) as u8));
    out.push(hex_digit(((n >> 36) & 0xf) as u8));
    out.push(hex_digit(((n >> 32) & 0xf) as u8));
    out.push(hex_digit(((n >> 28) & 0xf) as u8));
    out.push(hex_digit(((n >> 24) & 0xf) as u8));
    out.push(hex_digit(((n >> 20) & 0xf) as u8));
    out.push(hex_digit(((n >> 16) & 0xf) as u8));
    out.push(hex_digit(((n >> 12) & 0xf) as u8));
    out.push(hex_digit(((n >> 8) & 0xf) as u8));
    out.push(hex_digit(((n >> 4) & 0xf) as u8));
    out.push(hex_digit((n & 0xf) as u8));
    proof {
        assert(final(out)@ =~= old(out)@ + hex16_seq(n));
    }
}

/// Reads 16 hex digits at `pos`, if they are there and well-formed.
pub fn read_hex16(b: &Vec<u8>, pos: usize) -> (r: Option<u64>)
    ensures
        match r {
            Some(n) => pos + 16 <= b@.len() && hex16_ok(
                b@.subrange(pos as int, pos as int + 16),
            ) && n == hex16_val(b@.subrange(pos as int, pos as int + 16)),
            None => !(pos + 16 <= b@.len() && hex16_ok(b@.subrange(pos as int, pos as int + 16))),
        },
{
    let blen = b.len();
    if pos >= blen || blen - pos < 16 {
        return None;
    }
    let ghost sub = b@.subrange(pos as int, pos as int + 16);
    let mut vals: Vec<u8> = Vec::new();
    let mut i: usize = 0;
    while i < 16
        invariant
            i <= 16,
            blen == b@.len(),
            pos + 16 <= blen,
            sub == b@.subrange(pos as int, pos as int + 16),
            vals@.len() == i,
            forall|k: int| 0 <= k < i ==> is_hex_digit(#[trigger] sub[k]),
            forall|k: int| 0 <= k < i ==> vals@[k] == hexv(#[trigger] sub[k]),
        decreases 16 - i,
    {
        match hex_val(b[pos + i]) {
            Some(v) => {
                vals.push(v);
                proof {
                    assert(sub[i as int] == b@[pos + i]);
                }
            },
            None => {
                proof {
                    assert(sub[i as int] == b@[pos + i]);
                    assert(!is_hex_digit(sub[i as int]));
                }
                return None;
            },
        }
        i += 1;
    }
    let n: u64 = ((vals[0] as u64) << 60) | ((vals[1] as u64) << 56) | ((vals[2] as u64) << 52) | ((
    vals[3] as u64) << 48) | ((vals[4] as u64) << 44) | ((vals[5] as u64) << 40) | ((vals[6] as u64)
        << 36) | ((vals[7] as u64) << 32) | ((vals[8] as u64) << 28) | ((vals[9] as u64) << 24) | ((
    vals[10] as u64) << 20) | ((vals[11] as u64) << 16) | ((vals[12] as u64) << 12) | ((
    vals[13] as u64) << 8) | ((vals[14] as u64) << 4) | (vals[15] as u64);
    proof {
        assert(hex16_ok(sub));
        assert(n == hex16_val(sub));
    }
    Some(n)
}

} // verus!
