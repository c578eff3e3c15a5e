//! Mu-law companding: the bidirectional transform between one 8-bit mu-law
//! byte and one signed 16-bit linear sample.
//!
//! A mu-law byte, after bitwise inversion, packs a sign bit (weight 128), a
//! three-bit exponent (weight 16) and a four-bit mantissa, so arithmetic on
//! `255 - b` recovers the three fields exactly. Both directions are total:
//! every byte decodes, every sample encodes, and all arithmetic saturates
//! instead of wrapping.

use vstd::prelude::*;

verus! {

use vstd::arithmetic::div_mod::{
    lemma_fundamental_div_mod,
    lemma_fundamental_div_mod_converse,
    lemma_mod_division_less_than_divisor,
    lemma_div_pos_is_pos,
};

/// The linear sample a decoded byte rebuilds from an exponent `e` and a
/// mantissa `m`, before the sign is applied.
pub open spec fn rebuilt_magnitude_spec(m: int, e: int) -> int {
    (m * 8 + 132) * pow2_small(e) - 132
}

/// `2^e` for the small exponents the codec uses (`0..=10`); callers never ask
/// for a larger exponent, so the final branch only keeps the function total.
pub open spec fn pow2_small(e: int) -> int {
    if e <= 0 {
        1
    } else if e == 1 {
        2
    } else if e == 2 {
        4
    } else if e == 3 {
        8
    } else if e == 4 {
        16
    } else if e == 5 {
        32
    } else if e == 6 {
        64
    } else if e == 7 {
        128
    } else if e == 8 {
        256
    } else if e == 9 {
        512
    } else {
        1024
    }
}

/// The sample a mu-law byte `b` (as an integer in `0..=255`) stands for:
/// invert, split into sign/exponent/mantissa, rebuild the magnitude around the
/// bias 132 (`0x84`), and apply the sign.
pub open spec fn mu_law_decode_spec(b: int) -> int {
    let inv = 255 - b;
    let exponent = (inv / 16) % 8;
    let mantissa = inv % 16;
    let magnitude = rebuilt_magnitude_spec(mantissa, exponent);
    if inv >= 128 {
        -magnitude
    } else {
        magnitude
    }
}

/// The magnitude encoded for a sample: its absolute value, with the most
/// negative sample standing in for the most positive one, since its true
/// absolute value has no 16-bit representation.
pub open spec fn encode_magnitude_spec(s: int) -> int {
    if s == -32768 {
        32767
    } else if s < 0 {
        -s
    } else {
        s
    }
}

/// The biased, clipped magnitude the encoder works on: magnitude plus the
/// bias 33, clipped to the mu-law ceiling 8191 (`0x1FFF`).
pub open spec fn biased_magnitude_spec(s: int) -> int {
    let m = encode_magnitude_spec(s) + 33;
    if m > 8191 {
        8191
    } else {
        m
    }
}

/// The exponent of a biased magnitude: the largest `e` in `0..=7` whose
/// range `[2^(e+5), 2^(e+6))` holds the value, floored at 0.
pub open spec fn exponent_spec(b: int) -> int {
    if b >= 4096 {
        7
    } else if b >= 2048 {
        6
    } else if b >= 1024 {
        5
    } else if b >= 512 {
        4
    } else if b >= 256 {
        3
    } else if b >= 128 {
        2
    } else if b >= 64 {
        1
    } else {
        0
    }
}

/// The four mantissa bits of a biased magnitude, given its exponent `e`: the
/// bits starting at position `e + 3`.
pub open spec fn mantissa_spec(b: int) -> int {
    b / (8 * pow2_small(exponent_spec(b)))
}

/// The mu-law byte (as an integer in `0..=255`) that encodes a sample: pack
/// sign, exponent and mantissa, then invert.
pub open spec fn mu_law_encode_spec(s: int) -> int {
    let sign: int = if s < 0 {
        128
    } else {
        0
    };
    let b = biased_magnitude_spec(s);
    255 - (sign + exponent_spec(b) * 16 + mantissa_spec(b))
}

/// `2^e` for `e <= 7`, as a value.
fn shift_factor(e: u16) -> (r: u16)
    requires
        e <= 7,
    ensures
        r as int == pow2_small(e as int),
{
    if e == 0 {
        1
    } else if e == 1 {
        2
    } else if e == 2 {
        4
    } else if e == 3 {
        8
    } else if e == 4 {
        16
    } else if e == 5 {
        32
    } else if e == 6 {
        64
    } else {
        128
    }
}

/// Decode one mu-law byte to a linear sample. Total: every byte value has a
/// defined result, and the magnitude arithmetic stays well inside the 16-bit
/// range, so nothing can overflow.
pub fn mu_law_decode(mu_law_byte: u8) -> (sample: i16)
    ensures
        sample as int == mu_law_decode_spec(mu_law_byte as int),
        -32124 <= sample as int <= 32124,
{
    let inv: u16 = 255 - (mu_law_byte as u16);
    let exponent: u16 = (inv / 16) % 8;
    let mantissa: u16 = inv % 16;
    let factor: u16 = shift_factor(exponent);
    proof {
        assert(exponent < 8) by {
            lemma_mod_division_less_than_divisor(inv as int / 16, 8);
        }
        assert(mantissa < 16) by {
            lemma_mod_division_less_than_divisor(inv as int, 16);
        }
    }
    let base: u16 = mantissa * 8 + 132;
    assert(base * factor <= 32256) by (nonlinear_arith)
        requires
            base <= 252,
            factor <= 128,
    ;
    assert(base * factor >= 132) by (nonlinear_arith)
        requires
            base >= 132,
            factor >= 1,
    ;
    let magnitude: u16 = base * factor - 132;
    if inv >= 128 {
        -(magnitude as i16)
    } else {
        magnitude as i16
    }
}

/// Encode one linear sample to a mu-law byte. Total: every sample value has a
/// defined result; the most negative sample is treated as the most positive
/// one, and the biased magnitude is clipped at 8191 before the fields are
/// packed.
pub fn mu_law_encode(sample: i16) -> (byte: u8)
    ensures
        byte as int == mu_law_encode_spec(sample as int),
{
    let sign: u16 = if sample < 0 {
        128
    } else {
        0
    };
    let magnitude: u16 = if sample == i16::MIN {
        32767
    } else if sample < 0 {
        (-(sample as i32)) as u16
    } else {
        sample as u16
    };
    let biased_raw: u16 = magnitude + 33;
    let biased: u16 = if biased_raw > 8191 {
        8191
    } else {
        biased_raw
    };
    let exponent: u16 = if biased >= 4096 {
        7
    } else if biased >= 2048 {
        6
    } else if biased >= 1024 {
        5
    } else if biased >= 512 {
        4
    } else if biased >= 256 {
        3
    } else if biased >= 128 {
        2
    } else if biased >= 64 {
        1
    } else {
        0
    };
    let divisor: u16 = 8 * shift_factor(exponent);
    let mantissa: u16 = biased / divisor;
    proof {
        lemma_mantissa_in_range(biased as int, exponent as int);
    }
    let packed: u16 = sign + exponent * 16 + mantissa;
    (255 - packed) as u8
}

/// For a biased magnitude in the range its exponent names, the mantissa fits
/// in four bits.
proof fn lemma_mantissa_in_range(b: int, e: int)
    requires
        0 <= b <= 8191,
        e == exponent_spec(b),
    ensures
        0 <= b / (8 * pow2_small(e)) <= 15,
{
    let d = 8 * pow2_small(e);
    lemma_div_pos_is_pos(b, d);
    lemma_fundamental_div_mod(b, d);
    lemma_mod_division_less_than_divisor(b, d);
    assert(b < 16 * d);
    assert(b / d <= 15) by (nonlinear_arith)
        requires
            d > 0,
            b >= 0,
            b < 16 * d,
            b == d * (b / d) + b % d,
            0 <= b % d < d,
    ;
}

/// Unpacking an inverted byte recovers the packed sign, exponent and mantissa
/// exactly.
proof fn lemma_unpack_fields(sign: int, e: int, m: int)
    requires
        sign == 0 || sign == 1,
        0 <= e <= 7,
        0 <= m <= 15,
    ensures
        ({
            let inv = sign * 128 + e * 16 + m;
            (inv / 16) % 8 == e && inv % 16 == m && ((inv >= 128) <==> sign == 1)
        }),
{
    let inv = sign * 128 + e * 16 + m;
    lemma_fundamental_div_mod_converse(inv, 16, sign * 8 + e, m);
    lemma_fundamental_div_mod_converse(sign * 8 + e, 8, sign, e);
}

/// Rebuilding the magnitude from the encoder's exponent and mantissa lands
/// within a bounded distance of the magnitude that was encoded: companding
/// is lossy, but the error never diverges.
proof fn lemma_magnitude_approx(s: int)
    requires
        -32768 <= s <= 32767,
    ensures
        ({
            let b = biased_magnitude_spec(s);
            let dec = rebuilt_magnitude_spec(mantissa_spec(b), exponent_spec(b));
            -8835 <= dec - encode_magnitude_spec(s) <= 16797 && 0 <= dec
        }),
{
    let mag = encode_magnitude_spec(s);
    let b = biased_magnitude_spec(s);
    let e = exponent_spec(b);
    let p = pow2_small(e);
    let d = 8 * p;
    let m = mantissa_spec(b);
    assert(1 <= p <= 128);
    lemma_fundamental_div_mod(b, d);
    lemma_mod_division_less_than_divisor(b, d);
    let r = b % d;
    assert(b == d * m + r);
    assert((m * 8 + 132) * p == m * d + 132 * p) by (nonlinear_arith)
        requires
            d == 8 * p,
    ;
    assert(rebuilt_magnitude_spec(m, e) == (b - r) + 132 * p - 132);
}

/// The round trip through the codec is lossy but bounded: for every sample,
/// decoding its encoding lands within 16797 of the original, the most
/// negative and most positive samples included.
pub proof fn lemma_round_trip_bounded(s: i16)
    ensures
        -16797 <= mu_law_decode_spec(mu_law_encode_spec(s as int)) - s as int,
        mu_law_decode_spec(mu_law_encode_spec(s as int)) - s as int <= 16797,
{
    let si = s as int;
    let sign: int = if si < 0 {
        1
    } else {
        0
    };
    let mag = encode_magnitude_spec(si);
    let b = biased_magnitude_spec(si);
    let e = exponent_spec(b);
    let m = mantissa_spec(b);
    lemma_mantissa_in_range(b, e);
    lemma_unpack_fields(sign, e, m);
    lemma_magnitude_approx(si);
    let byte = mu_law_encode_spec(si);
    assert(255 - byte == sign * 128 + e * 16 + m);
    let dec = rebuilt_magnitude_spec(m, e);
    assert(mu_law_decode_spec(byte) == if sign == 1 {
        -dec
    } else {
        dec
    });
}

} // verus!
