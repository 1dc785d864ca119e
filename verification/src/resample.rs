//! Sample-rate conversion by two-point linear interpolation.
//!
//! A clip's samples are treated as a signal taken at the clip's own rate;
//! resampling to a target rate reads the signal at the target cadence and
//! blends each pair of neighbouring source samples in proportion to where
//! between them the new sample falls. A missing neighbour past either end of
//! the clip counts as silence, which also settles what resampling a clip of
//! zero or one samples means. The output length truncates (never rounds up)
//! the ratio-scaled sample count.

use vstd::prelude::*;
use vstd::arithmetic::div_mod::{
    lemma_div_is_ordered, lemma_div_multiples_vanish, lemma_div_pos_is_pos,
    lemma_fundamental_div_mod, lemma_hoist_over_denominator, lemma_mod_bound,
    lemma_mod_multiples_basic, lemma_multiply_divide_lt,
};
use vstd::arithmetic::mul::{
    lemma_mul_inequality, lemma_mul_is_commutative, lemma_mul_is_distributive_sub,
    lemma_mul_upper_bound,
};
use crate::clip::{AudioClip, MAX_SAMPLES};

verus! {

/// Number of samples produced when `len` samples at `src` Hz are read at
/// `tgt` Hz: the ratio-scaled count, truncated.
pub open spec fn out_len(len: int, src: int, tgt: int) -> int
    recommends
        0 < src,
{
    len * tgt / src
}

/// The sample at index `i` of a clip, with silence standing in for the
/// missing neighbours outside it.
pub open spec fn sample_at(s: Seq<i32>, i: int) -> int {
    if 0 <= i < s.len() {
        s[i] as int
    } else {
        0
    }
}

/// Linear blend of `a` and `b` at fraction `rem / d`, rounded down.
pub open spec fn lerp(a: int, b: int, rem: int, d: int) -> int
    recommends
        0 < d,
        0 <= rem < d,
{
    (a * (d - rem) + b * rem) / d
}

/// Output sample `j`: the source position `j * src / tgt` falls between the
/// source samples at `j * src / tgt` rounded down and its successor, and the
/// remainder gives the blend fraction.
pub open spec fn out_sample(s: Seq<i32>, src: int, tgt: int, j: int) -> int
    recommends
        0 < src,
        0 < tgt,
{
    lerp(
        sample_at(s, j * src / tgt),
        sample_at(s, j * src / tgt + 1),
        (j * src) % tgt,
        tgt,
    )
}

/// The whole resampled signal: `s` taken at `src` Hz, read back at `tgt` Hz.
pub open spec fn resampled(s: Seq<i32>, src: int, tgt: int) -> Seq<i32>
    recommends
        0 < src,
        0 < tgt,
{
    Seq::new((out_len(s.len() as int, src, tgt)) as nat, |j: int| out_sample(s, src, tgt, j) as i32)
}

/// A blend of two values lies between them.
pub proof fn lemma_lerp_bounds(a: int, b: int, rem: int, d: int)
    requires
        0 < d,
        0 <= rem < d,
    ensures
        a <= b ==> a <= lerp(a, b, rem, d) <= b,
        b <= a ==> b <= lerp(a, b, rem, d) <= a,
{
    let lo = if a <= b { a } else { b };
    let hi = if a <= b { b } else { a };
    let num = a * (d - rem) + b * rem;
    assert(lo * d <= num && num <= hi * d) by (nonlinear_arith)
        requires
            0 < d,
            0 <= rem < d,
            lo <= a,
            lo <= b,
            a <= hi,
            b <= hi,
            num == a * (d - rem) + b * rem,
    ;
    lemma_div_is_ordered(lo * d, num, d);
    lemma_div_is_ordered(num, hi * d, d);
    lemma_mul_is_commutative(lo, d);
    lemma_mul_is_commutative(hi, d);
    lemma_div_multiples_vanish(lo, d);
    lemma_div_multiples_vanish(hi, d);
}

/// Every output sample is a blend of two in-range values, so it is in range.
pub proof fn lemma_out_sample_in_range(s: Seq<i32>, src: int, tgt: int, j: int)
    requires
        0 < src,
        0 < tgt,
    ensures
        i32::MIN <= out_sample(s, src, tgt, j) <= i32::MAX,
{
    lemma_mod_bound(j * src, tgt);
    lemma_lerp_bounds(
        sample_at(s, j * src / tgt),
        sample_at(s, j * src / tgt + 1),
        (j * src) % tgt,
        tgt,
    );
}

/// Resampling a signal to its own rate reproduces it exactly: each output
/// position falls on a source sample, so no blending happens.
pub proof fn lemma_resample_identity(s: Seq<i32>, r: int)
    requires
        0 < r,
    ensures
        resampled(s, r, r) == s,
{
    let len = s.len() as int;
    lemma_mul_is_commutative(len, r);
    lemma_div_multiples_vanish(len, r);
    assert(out_len(len, r, r) == len);
    assert forall|j: int| 0 <= j < len implies resampled(s, r, r)[j] == s[j] by {
        lemma_mul_is_commutative(j, r);
        lemma_div_multiples_vanish(j, r);
        lemma_mod_multiples_basic(j, r);
        assert(j * r / r == j);
        assert((j * r) % r == 0);
        let a = sample_at(s, j);
        assert(lerp(a, sample_at(s, j + 1), 0, r) == a * r / r) by {
            assert(a * (r - 0) + sample_at(s, j + 1) * 0 == a * r) by (nonlinear_arith);
        }
        lemma_mul_is_commutative(a, r);
        lemma_div_multiples_vanish(a, r);
        assert(out_sample(s, r, r, j) == a);
    }
    assert(resampled(s, r, r) =~= s);
}

/// Doubling the target rate doubles the output length, except that
/// truncation may add one more sample.
pub proof fn lemma_resample_double_rate(len: int, src: int, tgt: int)
    requires
        0 <= len,
        0 < src,
        0 < tgt,
    ensures
        2 * out_len(len, src, tgt) <= out_len(len, src, 2 * tgt),
        out_len(len, src, 2 * tgt) <= 2 * out_len(len, src, tgt) + 1,
{
    let a = len * tgt;
    let q = a / src;
    let m = a % src;
    lemma_fundamental_div_mod(a, src);
    lemma_mod_bound(a, src);
    assert(len * (2 * tgt) == 2 * a) by (nonlinear_arith)
        requires
            a == len * tgt,
    ;
    assert(2 * a == 2 * m + (2 * q) * src) by (nonlinear_arith)
        requires
            a == src * q + m,
    ;
    lemma_hoist_over_denominator(2 * m, 2 * q, src as nat);
    assert(out_len(len, src, 2 * tgt) == 2 * m / src + 2 * q);
    lemma_div_pos_is_pos(2 * m, src);
    lemma_multiply_divide_lt(2 * m, src, 2);
    assert(0 <= 2 * m / src < 2);
}

impl AudioClip {
    /// The clip's samples read back at `sample_rate` Hz by linear
    /// interpolation. A clip already at that rate comes back value-equal,
    /// with no computation; otherwise the output holds the truncated
    /// ratio-scaled number of samples, each a blend of its two source
    /// neighbours (silence past either end).
    #[verifier::loop_isolation(false)]
    pub fn resample(&self, sample_rate: u32) -> (out: AudioClip)
        requires
            self.wf(),
            sample_rate > 0,
            out_len(
                self.samples@.len() as int,
                self.sample_rate as int,
                sample_rate as int,
            ) <= MAX_SAMPLES,
        ensures
            out.wf(),
            out.id == self.id,
            out.name@ == self.name@,
            out.date == self.date,
            out.sample_rate == sample_rate,
            out.samples@ == resampled(
                self.samples@,
                self.sample_rate as int,
                sample_rate as int,
            ),
            out.samples@.len() == out_len(
                self.samples@.len() as int,
                self.sample_rate as int,
                sample_rate as int,
            ),
            sample_rate == self.sample_rate ==> out.samples@ == self.samples@,
    {
        let ghost s = self.samples@;
        let ghost srci = self.sample_rate as int;
        let ghost tgti = sample_rate as int;
        proof {
            lemma_resample_identity(s, srci);
        }
        if sample_rate == self.sample_rate {
            return AudioClip {
                id: self.id,
                name: self.name.clone(),
                date: self.date,
                samples: self.samples.clone(),
                sample_rate,
            };
        }
        let src: u64 = self.sample_rate as u64;
        let tgt: u64 = sample_rate as u64;
        let n: u64 = self.samples.len() as u64;
        proof {
            lemma_mul_upper_bound(n as int, MAX_SAMPLES as int, tgt as int, u32::MAX as int);
        }
        let total: u64 = n * tgt / src;
        let mut samples: Vec<i32> = Vec::new();
        let mut j: u64 = 0;
        proof {
            lemma_fundamental_div_mod(n as int * tgt as int, src as int);
            lemma_mod_bound(n as int * tgt as int, src as int);
        }
        while j < total
            invariant
                0 < src,
                0 < tgt,
                src == srci,
                tgt == tgti,
                n == s.len(),
                s.len() <= MAX_SAMPLES,
                total == out_len(n as int, srci, tgti),
                total <= MAX_SAMPLES,
                total as int * srci <= n as int * tgti,
                0 <= j <= total,
                samples@.len() == j,
                forall|k: int| 0 <= k < j ==> samples@[k] == resampled(s, srci, tgti)[k],
                self.samples@ == s,
            decreases total - j,
        {
            proof {
                lemma_mul_upper_bound(j as int, MAX_SAMPLES as int, src as int, u32::MAX as int);
                lemma_mul_inequality(j as int, total as int - 1, src as int);
                assert((total as int - 1) * srci == total as int * srci - srci) by {
                    lemma_mul_is_distributive_sub(srci, total as int, 1);
                    lemma_mul_is_commutative(srci, total as int);
                    lemma_mul_is_commutative(srci, total as int - 1);
                }
                assert(j as int * srci < n as int * tgti);
                lemma_mul_is_commutative(n as int, tgti);
                lemma_multiply_divide_lt(j as int * srci, tgti, n as int);
            }
            let pos: u64 = j * src;
            let idx: u64 = pos / tgt;
            let rem: u64 = pos % tgt;
            let a: i32 = self.samples[idx as usize];
            let b: i32 = if idx + 1 < n {
                self.samples[(idx + 1) as usize]
            } else {
                0i32
            };
            proof {
                assert(a as int == sample_at(s, idx as int));
                assert(b as int == sample_at(s, idx as int + 1));
            }
            let v: i32 = lerp_sample(a, b, rem as u32, sample_rate);
            samples.push(v);
            proof {
                lemma_out_sample_in_range(s, srci, tgti, j as int);
                assert(v as int == out_sample(s, srci, tgti, j as int));
                assert(samples@[j as int] == resampled(s, srci, tgti)[j as int]);
            }
            j = j + 1;
        }
        proof {
            assert(samples@ =~= resampled(s, srci, tgti));
        }
        AudioClip {
            id: self.id,
            name: self.name.clone(),
            date: self.date,
            samples,
            sample_rate,
        }
    }
}

/// Exact fixed-point linear blend: shifts both samples into unsigned range,
/// blends there, and shifts back, so only unsigned division is needed.
fn lerp_sample(a: i32, b: i32, rem: u32, d: u32) -> (r: i32)
    requires
        0 < d,
        rem < d,
    ensures
        r as int == lerp(a as int, b as int, rem as int, d as int),
{
    proof {
        lemma_lerp_bounds(a as int, b as int, rem as int, d as int);
    }
    let ua: u64 = ((a as i64) + 0x8000_0000i64) as u64;
    let ub: u64 = ((b as i64) + 0x8000_0000i64) as u64;
    proof {
        lemma_mul_upper_bound(ua as int, u32::MAX as int + 1, (d - rem) as int, u32::MAX as int);
        lemma_mul_upper_bound(ub as int, u32::MAX as int + 1, rem as int, u32::MAX as int);
    }
    let num: u128 = (ua as u128) * ((d - rem) as u128) + (ub as u128) * (rem as u128);
    let q: u128 = num / (d as u128);
    proof {
        let ai = a as int;
        let bi = b as int;
        let remi = rem as int;
        let di = d as int;
        let numer = ai * (di - remi) + bi * remi;
        assert(num as int == numer + 0x8000_0000 * di) by (nonlinear_arith)
            requires
                numer == ai * (di - remi) + bi * remi,
                ua as int == ai + 0x8000_0000,
                ub as int == bi + 0x8000_0000,
                num as int == ua as int * (di - remi) + ub as int * remi,
        ;
        lemma_hoist_over_denominator(numer, 0x8000_0000, d as nat);
        assert(q as int == lerp(ai, bi, remi, di) + 0x8000_0000);
    }
    let r64: i64 = (q as i64) - 0x8000_0000i64;
    r64 as i32
}

} // verus!
