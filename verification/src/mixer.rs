//! Stateless signal operations on linear samples: volume scaling, linear fade
//! envelopes, and two-buffer mixing with saturation.
//!
//! Volume multipliers are held exactly as non-negative rationals, and every
//! scaling truncates toward zero, the narrowing a host's real-number
//! arithmetic performs when it turns a scaled sample back into an integer.

use vstd::prelude::*;

verus! {

use vstd::arithmetic::div_mod::{
    lemma_fundamental_div_mod,
    lemma_mod_division_less_than_divisor,
    lemma_div_pos_is_pos,
    lemma_div_multiples_vanish,
    lemma_div_of0,
};

/// A non-negative volume multiplier, held exactly as the rational
/// `num / den`. The denominator must be positive for the pair to denote a
/// multiplier.
#[derive(Clone, Copy)]
pub struct Volume {
    pub num: u32,
    pub den: u32,
}

impl Volume {
    /// The pair denotes a multiplier only when the denominator is positive.
    pub open spec fn wf(self) -> bool {
        self.den > 0
    }

    pub fn new(num: u32, den: u32) -> (v: Volume)
        requires
            den > 0,
        ensures
            v.num == num,
            v.den == den,
            v.wf(),
    {
        Volume { num, den }
    }
}

/// Saturate a value to the signed 16-bit sample range instead of letting it
/// wrap.
pub open spec fn clamp16(v: int) -> int {
    if v > 32767 {
        32767
    } else if v < -32768 {
        -32768
    } else {
        v
    }
}

/// `v` scaled by the non-negative factor `num / den`, truncated toward zero,
/// then saturated to the 16-bit range on the inputs that would leave it.
pub open spec fn scale_spec(v: int, num: int, den: int) -> int {
    if v >= 0 {
        let m = (v * num) / den;
        if m > 32767 {
            32767
        } else {
            m
        }
    } else {
        let m = ((-v) * num) / den;
        if m > 32768 {
            -32768
        } else {
            -m
        }
    }
}

/// `v` scaled by the fade factor `k / d`, truncated toward zero.
pub open spec fn ramp_spec(v: int, k: int, d: int) -> int {
    if v >= 0 {
        (v * k) / d
    } else {
        -(((-v) * k) / d)
    }
}

/// The value of sample `i` of a buffer of length `len` under fade envelopes:
/// the first `fin` samples ramp up from zero, the last `fout` ramp down to
/// zero, and a sample inside both windows is scaled by both in sequence.
pub open spec fn fade_sample_spec(v: int, i: int, len: int, fin: int, fout: int) -> int {
    let v1 = if i < fin {
        ramp_spec(v, i, fin)
    } else {
        v
    };
    if fout > 0 && i + fout >= len {
        ramp_spec(v1, len - 1 - i, fout)
    } else {
        v1
    }
}

/// A missing sample past a buffer's end contributes zero to a mix.
pub open spec fn sample_at(s: Seq<int>, i: int) -> int {
    if 0 <= i < s.len() {
        s[i]
    } else {
        0
    }
}

/// The samples of a buffer, as mathematical integers.
pub open spec fn to_ints(s: Seq<i16>) -> Seq<int> {
    Seq::new(s.len(), |i: int| s[i] as int)
}

/// Every sample of a sequence lies in the signed 16-bit range.
pub open spec fn in_range16(s: Seq<int>) -> bool {
    forall|i: int| 0 <= i < s.len() ==> -32768 <= #[trigger] s[i] <= 32767
}

/// The saturating mix of two sample sequences: as long as the longer input,
/// summing index-wise with missing samples as zero, every sum clamped.
pub open spec fn mix_seq(a: Seq<int>, b: Seq<int>) -> Seq<int> {
    let n = if a.len() >= b.len() {
        a.len()
    } else {
        b.len()
    };
    Seq::new(n, |i: int| clamp16(sample_at(a, i) + sample_at(b, i)))
}

/// A magnitude of at most 32768 scaled by a factor strictly below one stays
/// strictly below 32768.
proof fn lemma_scaled_bound(mag: int, k: int, d: int)
    requires
        0 <= mag <= 32768,
        0 <= k < d,
    ensures
        0 <= (mag * k) / d <= 32767,
{
    let q = (mag * k) / d;
    assert(mag * k >= 0) by (nonlinear_arith)
        requires
            mag >= 0,
            k >= 0,
    ;
    lemma_div_pos_is_pos(mag * k, d);
    lemma_fundamental_div_mod(mag * k, d);
    lemma_mod_division_less_than_divisor(mag * k, d);
    assert(mag * k <= 32768 * d - 32768) by (nonlinear_arith)
        requires
            0 <= mag <= 32768,
            0 <= k <= d - 1,
    ;
    assert(q <= 32767) by (nonlinear_arith)
        requires
            mag * k == d * q + (mag * k) % d,
            0 <= (mag * k) % d,
            mag * k <= 32768 * d - 32768,
            d > 0,
            q >= 0,
    ;
}

/// A fade factor of zero silences any sample.
proof fn lemma_ramp_zero_factor(v: int, d: int)
    requires
        d > 0,
    ensures
        ramp_spec(v, 0, d) == 0,
{
    assert(v * 0 == 0) by (nonlinear_arith);
    assert((-v) * 0 == 0) by (nonlinear_arith);
    lemma_div_of0(d);
}

/// A silent sample stays silent under any fade factor.
proof fn lemma_ramp_zero_sample(k: int, d: int)
    requires
        d > 0,
    ensures
        ramp_spec(0, k, d) == 0,
{
    assert(0 * k == 0) by (nonlinear_arith);
    lemma_div_of0(d);
}

/// Scale one sample by a volume multiplier, truncating toward zero. A zero
/// multiplier yields exactly zero, and a result past the 16-bit range
/// saturates.
pub fn apply_volume(sample: i16, volume: Volume) -> (r: i16)
    requires
        volume.wf(),
    ensures
        r as int == scale_spec(sample as int, volume.num as int, volume.den as int),
        volume.num == 0 ==> r == 0,
{
    let mag: u64 = if sample == i16::MIN {
        32768
    } else if sample < 0 {
        (-(sample as i32)) as u64
    } else {
        sample as u64
    };
    let num = volume.num as u64;
    let den = volume.den as u64;
    assert(mag * num <= 32768 * 0xffff_ffffu64) by (nonlinear_arith)
        requires
            mag <= 32768,
            num <= 0xffff_ffffu64,
    ;
    let q: u64 = (mag * num) / den;
    proof {
        if volume.num == 0 {
            assert(mag * num == 0) by (nonlinear_arith)
                requires
                    num == 0,
            ;
            lemma_div_of0(den as int);
        }
    }
    if sample >= 0 {
        if q > 32767 {
            32767
        } else {
            q as i16
        }
    } else {
        if q >= 32768 {
            -32768
        } else {
            -(q as i16)
        }
    }
}

/// Scale one sample by the fade factor `k / d`; with `k < d` the factor is
/// below one, so the result is again a sample.
pub(crate) fn ramp(v: i16, k: u64, d: u64) -> (r: i16)
    requires
        0 < d,
        k < d,
    ensures
        r as int == ramp_spec(v as int, k as int, d as int),
{
    let mag: u128 = if v == i16::MIN {
        32768
    } else if v < 0 {
        (-(v as i32)) as u128
    } else {
        v as u128
    };
    assert(mag * (k as u128) <= 32768 * 0xffff_ffff_ffff_ffffu128) by (nonlinear_arith)
        requires
            mag <= 32768,
            k as u128 <= 0xffff_ffff_ffff_ffffu128,
    ;
    let q: u128 = (mag * (k as u128)) / (d as u128);
    proof {
        lemma_scaled_bound(mag as int, k as int, d as int);
    }
    if v >= 0 {
        q as i16
    } else {
        -(q as i16)
    }
}

/// Apply linear fade envelopes to a buffer: the first `fade_in_samples`
/// samples ramp up from zero, the last `fade_out_samples` ramp down to zero.
/// With both counts zero the buffer comes back unchanged; a count past the
/// buffer length only reaches the samples that exist.
pub fn apply_fade(samples: &[i16], fade_in_samples: usize, fade_out_samples: usize) -> (r: Vec<
    i16,
>)
    ensures
        r@.len() == samples@.len(),
        forall|i: int|
            0 <= i < r@.len() ==> r@[i] as int == fade_sample_spec(
                samples@[i] as int,
                i,
                samples@.len() as int,
                fade_in_samples as int,
                fade_out_samples as int,
            ),
        fade_in_samples == 0 && fade_out_samples == 0 ==> r@ == samples@,
        fade_in_samples > 0 && samples@.len() > 0 ==> r@[0] as int == 0,
        fade_out_samples > 0 && samples@.len() > 0 ==> r@[samples@.len() - 1] as int == 0,
{
    let len = samples.len();
    let mut result: Vec<i16> = Vec::new();
    let mut i: usize = 0;
    while i < len
        invariant
            i <= len,
            len == samples@.len(),
            result@.len() == i,
            forall|j: int|
                0 <= j < i ==> result@[j] as int == fade_sample_spec(
                    samples@[j] as int,
                    j,
                    len as int,
                    fade_in_samples as int,
                    fade_out_samples as int,
                ),
        decreases len - i,
    {
        let v = samples[i];
        let v1: i16 = if i < fade_in_samples {
            ramp(v, i as u64, fade_in_samples as u64)
        } else {
            v
        };
        let v2: i16 = if fade_out_samples > 0 && (i as u128) + (fade_out_samples as u128) >= (
        len as u128) {
            ramp(v1, (len - 1 - i) as u64, fade_out_samples as u64)
        } else {
            v1
        };
        result.push(v2);
        i += 1;
    }
    proof {
        if fade_in_samples == 0 && fade_out_samples == 0 {
            assert(result@ =~= samples@);
        }
        if fade_in_samples > 0 && len > 0 {
            lemma_ramp_zero_factor(samples@[0] as int, fade_in_samples as int);
            if fade_out_samples > 0 && (fade_out_samples as int) >= (len as int) {
                lemma_ramp_zero_sample(len as int - 1, fade_out_samples as int);
            }
            assert(result@[0] as int == 0);
        }
        if fade_out_samples > 0 && len > 0 {
            let last = len as int - 1;
            let v1 = if last < fade_in_samples as int {
                ramp_spec(samples@[last] as int, last, fade_in_samples as int)
            } else {
                samples@[last] as int
            };
            lemma_ramp_zero_factor(v1, fade_out_samples as int);
            assert(result@[last] as int == 0);
        }
    }
    result
}

/// Mix two sample buffers with clipping protection: the result is as long as
/// the longer input, a missing sample counts as zero, and every index-wise
/// sum is saturated to the 16-bit range before narrowing.
pub fn mix_samples(samples1: &[i16], samples2: &[i16]) -> (r: Vec<i16>)
    ensures
        to_ints(r@) == mix_seq(to_ints(samples1@), to_ints(samples2@)),
        r@.len() == if samples1@.len() >= samples2@.len() {
            samples1@.len()
        } else {
            samples2@.len()
        },
{
    let len1 = samples1.len();
    let len2 = samples2.len();
    let max_length = if len1 >= len2 {
        len1
    } else {
        len2
    };
    let mut result: Vec<i16> = Vec::new();
    let mut i: usize = 0;
    while i < max_length
        invariant
            i <= max_length,
            len1 == samples1@.len(),
            len2 == samples2@.len(),
            max_length == if len1 >= len2 {
                len1
            } else {
                len2
            },
            result@.len() == i,
            forall|j: int|
                0 <= j < i ==> result@[j] as int == clamp16(
                    sample_at(to_ints(samples1@), j) + sample_at(to_ints(samples2@), j),
                ),
        decreases max_length - i,
    {
        let s1: i16 = if i < len1 {
            samples1[i]
        } else {
            0
        };
        let s2: i16 = if i < len2 {
            samples2[i]
        } else {
            0
        };
        let sum: i32 = s1 as i32 + s2 as i32;
        let clamped: i16 = if sum > 32767 {
            32767
        } else if sum < -32768 {
            -32768
        } else {
            sum as i16
        };
        result.push(clamped);
        i += 1;
    }
    proof {
        assert(to_ints(result@) =~= mix_seq(to_ints(samples1@), to_ints(samples2@)));
    }
    result
}

/// Saturation holds for every mixed sample: whatever the two inputs hold, a
/// mixed sample never leaves the signed 16-bit range.
pub proof fn lemma_mix_in_range(a: Seq<int>, b: Seq<int>, i: int)
    requires
        0 <= i < mix_seq(a, b).len(),
    ensures
        -32768 <= mix_seq(a, b)[i] <= 32767,
{
}

/// Past the shorter input the missing side contributes zero, so the tail of
/// a mix equals the longer input's own tail.
pub proof fn lemma_mix_unequal_tail(a: Seq<int>, b: Seq<int>, i: int)
    requires
        in_range16(a),
        in_range16(b),
        0 <= i < mix_seq(a, b).len(),
    ensures
        b.len() <= i < a.len() ==> mix_seq(a, b)[i] == a[i],
        a.len() <= i < b.len() ==> mix_seq(a, b)[i] == b[i],
{
}

/// Scaling by a multiplier equal to one returns every sample unchanged.
pub proof fn lemma_scale_identity(v: int, n: int)
    requires
        n > 0,
        -32768 <= v <= 32767,
    ensures
        scale_spec(v, n, n) == v,
{
    if v >= 0 {
        lemma_div_multiples_vanish(v, n);
        assert(v * n == n * v) by (nonlinear_arith);
    } else {
        lemma_div_multiples_vanish(-v, n);
        assert((-v) * n == n * (-v)) by (nonlinear_arith);
    }
}

} // verus!
