//! Fixed-point units shared by the whole core, and the exact linear
//! interpolation that the envelope stages are built on.

use vstd::arithmetic::div_mod::{
    lemma_div_is_ordered, lemma_div_multiples_vanish, lemma_div_pos_is_pos,
};
use vstd::arithmetic::mul::lemma_mul_inequality;
use vstd::prelude::*;

verus! {

/// Full amplitude, as a Q16 fixed-point fraction: `AMP_ONE` stands for 1.0.
pub const AMP_ONE: u64 = 65536;

/// One full oscillator cycle in fixed-point phase units: `PHASE_ONE` stands
/// for a phase of 1.0.
pub const PHASE_ONE: u64 = 16777216;

/// Half an oscillator cycle.
pub const PHASE_HALF: u64 = 8388608;

/// Number of whole samples that `ms` milliseconds last at `rate` samples
/// per second.
pub open spec fn samples_of_ms(ms: u32, rate: u32) -> int {
    ms * rate / 1000
}

/// A duration in samples fits comfortably in 64 bits.
pub proof fn lemma_samples_of_ms_bound(ms: u32, rate: u32)
    ensures
        0 <= samples_of_ms(ms, rate) < 0x4000_0000_0000_0000,
{
    assert((ms as int) * (rate as int) <= 0xffff_ffff * 0xffff_ffff) by (nonlinear_arith)
        requires
            ms <= 0xffff_ffffu32,
            rate <= 0xffff_ffffu32,
    ;
    lemma_div_pos_is_pos(ms * rate, 1000);
    lemma_div_is_ordered(ms * rate, 0xffff_ffff * (0xffff_ffff as int), 1000);
}

/// Converts a duration in milliseconds to a duration in samples.
pub fn ms_to_samples(ms: u32, rate: u32) -> (r: u64)
    ensures
        r == samples_of_ms(ms, rate),
{
    proof {
        assert((ms as int) * (rate as int) <= 0xffff_ffff * 0xffff_ffff) by (nonlinear_arith)
            requires
                ms <= 0xffff_ffffu32,
                rate <= 0xffff_ffffu32,
        ;
    }
    (ms as u64) * (rate as u64) / 1000
}

/// Value of a linear ramp from `from` to `to` after `elapsed` of `total`
/// steps. The ramp starts at exactly `from` when `elapsed` is 0 and `total`
/// is positive, and holds exactly `to` from step `total` on.
pub open spec fn lerp(from: int, to: int, elapsed: int, total: int) -> int {
    if elapsed >= total {
        to
    } else if from <= to {
        from + (to - from) * elapsed / total
    } else {
        from - (from - to) * elapsed / total
    }
}

/// Multiplying by a proper fraction `t / n` never increases a non-negative
/// value, and keeps it non-negative.
pub proof fn lemma_mul_div_le(a: int, t: int, n: int)
    requires
        0 <= a,
        0 <= t < n,
    ensures
        0 <= a * t / n <= a,
{
    lemma_mul_inequality(t, n, a);
    lemma_div_is_ordered(t * a, n * a, n);
    lemma_div_multiples_vanish(a, n);
    assert(t * a == a * t) by (nonlinear_arith);
    assert(n * a == a * n) by (nonlinear_arith);
    lemma_div_pos_is_pos(a * t, n);
}

/// Multiplying by a fraction `t / n` with `t <= n` never increases a
/// non-negative value, and keeps it non-negative.
pub proof fn lemma_mul_div_le_full(a: int, t: int, n: int)
    requires
        0 <= a,
        0 <= t <= n,
        0 < n,
    ensures
        0 <= a * t / n <= a,
{
    if t < n {
        lemma_mul_div_le(a, t, n);
    } else {
        lemma_div_multiples_vanish(a, n);
        assert(a * t == n * a) by (nonlinear_arith)
            requires
                t == n,
        ;
    }
}

/// Dividing a non-negative value by at least one never increases it.
pub proof fn lemma_div_le_self(x: int, d: int)
    requires
        0 <= x,
        1 <= d,
    ensures
        0 <= x / d <= x,
{
    vstd::arithmetic::div_mod::lemma_div_is_ordered_by_denominator(x, 1, d);
    assert(x / 1 == x) by {
        vstd::arithmetic::div_mod::lemma_div_by_self(1);
        vstd::arithmetic::div_mod::lemma_fundamental_div_mod(x, 1);
    }
    lemma_div_pos_is_pos(x, d);
}

/// Dividing by one changes nothing.
pub proof fn lemma_div_by_one(x: int)
    requires
        0 <= x,
    ensures
        x / 1 == x,
{
    vstd::arithmetic::div_mod::lemma_fundamental_div_mod(x, 1);
    vstd::arithmetic::div_mod::lemma_mod_bound(x, 1);
}

/// A linear ramp never leaves the closed interval between its endpoints.
pub proof fn lemma_lerp_bounds(from: int, to: int, elapsed: int, total: int)
    requires
        0 <= elapsed,
        0 <= from,
        0 <= to,
    ensures
        from <= to ==> from <= lerp(from, to, elapsed, total) <= to,
        to <= from ==> to <= lerp(from, to, elapsed, total) <= from,
{
    if elapsed < total {
        if from <= to {
            lemma_mul_div_le(to - from, elapsed, total);
        } else {
            lemma_mul_div_le(from - to, elapsed, total);
        }
    }
}

/// A linear ramp is monotone in elapsed time: non-decreasing when it rises,
/// non-increasing when it falls.
pub proof fn lemma_lerp_monotone(from: int, to: int, e1: int, e2: int, total: int)
    requires
        0 <= e1 <= e2,
        0 <= from,
        0 <= to,
    ensures
        from <= to ==> lerp(from, to, e1, total) <= lerp(from, to, e2, total),
        to <= from ==> lerp(from, to, e2, total) <= lerp(from, to, e1, total),
{
    lemma_lerp_bounds(from, to, e1, total);
    lemma_lerp_bounds(from, to, e2, total);
    if e2 < total {
        if from <= to {
            lemma_mul_inequality(e1, e2, to - from);
            assert((to - from) * e1 == e1 * (to - from)) by (nonlinear_arith);
            assert((to - from) * e2 == e2 * (to - from)) by (nonlinear_arith);
            lemma_div_is_ordered((to - from) * e1, (to - from) * e2, total);
        } else {
            lemma_mul_inequality(e1, e2, from - to);
            assert((from - to) * e1 == e1 * (from - to)) by (nonlinear_arith);
            assert((from - to) * e2 == e2 * (from - to)) by (nonlinear_arith);
            lemma_div_is_ordered((from - to) * e1, (from - to) * e2, total);
        }
    }
}

/// Computes one point of a linear ramp between two amplitudes.
pub fn lerp_amp(from: u64, to: u64, elapsed: u64, total: u64) -> (r: u64)
    requires
        from <= AMP_ONE,
        to <= AMP_ONE,
    ensures
        r == lerp(from as int, to as int, elapsed as int, total as int),
        r <= AMP_ONE,
{
    if elapsed >= total {
        to
    } else if from <= to {
        let diff: u64 = to - from;
        proof {
            lemma_mul_div_le(diff as int, elapsed as int, total as int);
            lemma_mul_inequality(diff as int, AMP_ONE as int, elapsed as int);
        }
        let inc: u64 = ((diff as u128) * (elapsed as u128) / (total as u128)) as u64;
        from + inc
    } else {
        let diff: u64 = from - to;
        proof {
            lemma_mul_div_le(diff as int, elapsed as int, total as int);
            lemma_mul_inequality(diff as int, AMP_ONE as int, elapsed as int);
        }
        let dec: u64 = ((diff as u128) * (elapsed as u128) / (total as u128)) as u64;
        from - dec
    }
}

} // verus!
