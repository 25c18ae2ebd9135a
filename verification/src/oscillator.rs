//! The per-voice oscillator: a phase accumulator in `[0, PHASE_ONE)` and a
//! periodic waveform evaluated at that phase.
//!
//! The phase advances by `frequency / sample_rate` of a cycle per sample
//! and wraps by subtraction; a delta of one cycle or more is first reduced
//! with a floor-based reduction so wrapping stays correct at any frequency.
//! The waveform is one sine-like cycle built from two parabolic arcs: it is
//! exactly 0 at phase 0 and at half a cycle, peaks at the quarter cycles,
//! and stays within `[-AMP_ONE, AMP_ONE]`.

use crate::units::{AMP_ONE, PHASE_HALF, PHASE_ONE};
use vstd::arithmetic::div_mod::{
    lemma_div_is_ordered, lemma_div_multiples_vanish, lemma_div_pos_is_pos,
    lemma_mod_sub_multiples_vanish, lemma_small_mod,
};
use vstd::prelude::*;

verus! {

/// Highest frequency, in millihertz, that the phase-delta computation
/// accepts; far above anything audible, it only keeps the fixed-point
/// arithmetic inside 64 bits.
pub const MAX_FREQ_MILLIHZ: u64 = 68719476736;

/// Fraction of a cycle, in fixed-point phase units, that the phase advances
/// per sample at the given frequency and sample rate.
pub open spec fn phase_delta(freq_millihz: u64, rate: u32) -> int {
    freq_millihz * PHASE_ONE / (1000 * rate)
}

/// Phase after one advance: the old phase plus the delta, wrapped into
/// `[0, PHASE_ONE)`.
pub open spec fn next_phase(phase: u64, delta: u64) -> int {
    (phase + delta) % (PHASE_ONE as int)
}

/// Waveform value at a phase in `[0, PHASE_ONE)`: a positive parabolic arc
/// over the first half cycle and its negative mirror over the second, with
/// exact zeroes at 0 and `PHASE_HALF` and peaks of `AMP_ONE` at the quarter
/// cycles.
pub open spec fn waveform(phase: u64) -> int {
    if phase < PHASE_HALF {
        4 * phase * (PHASE_HALF - phase) * AMP_ONE / (PHASE_HALF * PHASE_HALF)
    } else {
        -(4 * (phase - PHASE_HALF) * (PHASE_ONE - phase) * AMP_ONE / (
        PHASE_HALF * PHASE_HALF))
    }
}

/// A parabolic arc `4 * a * (h - a)` over `[0, h]` never exceeds `h * h`.
proof fn lemma_arc_bound(a: int, h: int)
    requires
        0 <= a <= h,
    ensures
        0 <= 4 * a * (h - a) <= h * h,
{
    assert(0 <= 4 * a * (h - a) <= h * h) by (nonlinear_arith)
        requires
            0 <= a <= h,
    ;
}

/// Computes the positive magnitude `4 * a * (h - a) * AMP_ONE / (h * h)`
/// for the arc parameter `a` within the half cycle.
fn arc_magnitude(a: u64) -> (r: u64)
    requires
        a < PHASE_HALF,
    ensures
        r == 4 * a * (PHASE_HALF - a) * AMP_ONE / (PHASE_HALF * PHASE_HALF),
        r <= AMP_ONE,
{
    let b: u64 = PHASE_HALF - a;
    proof {
        lemma_arc_bound(a as int, PHASE_HALF as int);
        assert(a * b <= PHASE_HALF * PHASE_HALF) by (nonlinear_arith)
            requires
                0 <= a <= PHASE_HALF as int,
                b == PHASE_HALF as int - a,
        ;
        assert(4 * (a * b) == 4 * a * b) by (nonlinear_arith);
        lemma_div_is_ordered(
            4 * a * b * (AMP_ONE as int),
            (PHASE_HALF * PHASE_HALF) as int * (AMP_ONE as int),
            (PHASE_HALF * PHASE_HALF) as int,
        );
        lemma_div_multiples_vanish(AMP_ONE as int, (PHASE_HALF * PHASE_HALF) as int);
        lemma_div_pos_is_pos(4 * a * b * (AMP_ONE as int), (PHASE_HALF * PHASE_HALF) as int);
        assert(4 * a * b * (AMP_ONE as int) <= (PHASE_HALF * PHASE_HALF) as int * (AMP_ONE as int))
            by (nonlinear_arith)
            requires
                0 <= 4 * a * b <= (PHASE_HALF * PHASE_HALF) as int,
        ;
    }
    let t: u64 = a * b;
    let t4: u64 = 4 * t;
    (t4 * AMP_ONE) / (PHASE_HALF * PHASE_HALF)
}

/// The oscillator state: the position within one waveform cycle, always in
/// `[0, PHASE_ONE)`.
#[derive(Clone, Copy, PartialEq, Eq, Structural, Debug)]
pub struct Oscillator {
    pub phase: u64,
}

impl Oscillator {
    pub open spec fn wf(self) -> bool {
        self.phase < PHASE_ONE
    }

    /// A fresh oscillator starts at phase 0.
    pub fn new() -> (r: Self)
        ensures
            r.phase == 0,
            r.wf(),
    {
        Oscillator { phase: 0 }
    }

    /// Sets the phase back to 0.
    pub fn reset(&mut self)
        ensures
            final(self).phase == 0,
            final(self).wf(),
    {
        self.phase = 0;
    }

    /// Waveform value at the current phase.
    pub fn sample(&self) -> (r: i64)
        requires
            self.wf(),
        ensures
            r == waveform(self.phase),
            -(AMP_ONE as int) <= r <= AMP_ONE as int,
    {
        if self.phase < PHASE_HALF {
            arc_magnitude(self.phase) as i64
        } else {
            let a: u64 = self.phase - PHASE_HALF;
            let m: u64 = arc_magnitude(a);
            proof {
                assert(PHASE_HALF as int - a == PHASE_ONE as int - self.phase);
            }
            -(m as i64)
        }
    }

    /// Advances the phase by `delta` fixed-point units, wrapping into
    /// `[0, PHASE_ONE)`. Holds for any delta, however extreme the frequency
    /// behind it.
    pub fn advance(&mut self, delta: u64)
        requires
            old(self).wf(),
        ensures
            final(self).phase == next_phase(old(self).phase, delta),
            final(self).wf(),
    {
        let d: u64 = delta % PHASE_ONE;
        let s: u64 = self.phase + d;
        proof {
            lemma_phase_wrap(self.phase, delta, d as int, s as int);
        }
        if s >= PHASE_ONE {
            self.phase = s - PHASE_ONE;
        } else {
            self.phase = s;
        }
    }

    /// Emits the waveform value for the current sample, then advances the
    /// phase by one sample at the given frequency.
    pub fn next_sample(&mut self, freq_millihz: u64, rate: u32) -> (r: i64)
        requires
            old(self).wf(),
            freq_millihz <= MAX_FREQ_MILLIHZ,
            rate >= 1,
        ensures
            r == waveform(old(self).phase),
            -(AMP_ONE as int) <= r <= AMP_ONE as int,
            final(self).phase == next_phase(
                old(self).phase,
                phase_delta(freq_millihz, rate) as u64,
            ),
            final(self).wf(),
    {
        let r = self.sample();
        let delta = phase_delta_per_sample(freq_millihz, rate);
        self.advance(delta);
        r
    }
}

/// Helper for `Oscillator::advance`: one conditional subtraction after a
/// floor-based reduction of the delta computes the wrapped phase.
proof fn lemma_phase_wrap(phase: u64, delta: u64, d: int, s: int)
    requires
        phase < PHASE_ONE,
        d == delta as int % (PHASE_ONE as int),
        s == phase + d,
    ensures
        s < 2 * (PHASE_ONE as int),
        s >= PHASE_ONE ==> s - PHASE_ONE == next_phase(phase, delta),
        s < PHASE_ONE ==> s == next_phase(phase, delta),
{
    let p = PHASE_ONE as int;
    // (phase + delta) % p == (phase + delta % p) % p
    vstd::arithmetic::div_mod::lemma_add_mod_noop_right(phase as int, delta as int, p);
    vstd::arithmetic::div_mod::lemma_mod_division_less_than_divisor(delta as int, p);
    if s >= p {
        lemma_mod_sub_multiples_vanish(s, p);
        lemma_small_mod((s - p) as nat, PHASE_ONE as nat);
    } else {
        lemma_small_mod(s as nat, PHASE_ONE as nat);
    }
}

/// Computes the per-sample phase delta for a frequency in millihertz.
pub fn phase_delta_per_sample(freq_millihz: u64, rate: u32) -> (r: u64)
    requires
        freq_millihz <= MAX_FREQ_MILLIHZ,
        rate >= 1,
    ensures
        r == phase_delta(freq_millihz, rate),
{
    proof {
        assert(freq_millihz as int * PHASE_ONE as int <= MAX_FREQ_MILLIHZ as int * PHASE_ONE as int)
            by (nonlinear_arith)
            requires
                freq_millihz <= MAX_FREQ_MILLIHZ,
        ;
        lemma_div_pos_is_pos(freq_millihz as int * PHASE_ONE as int, 1000 * rate as int);
        lemma_div_is_ordered(
            freq_millihz as int * PHASE_ONE as int,
            MAX_FREQ_MILLIHZ as int * PHASE_ONE as int,
            1000 * rate as int,
        );
    }
    freq_millihz * PHASE_ONE / (1000 * rate as u64)
}

/// Law: however many times the oscillator advances, and whatever the
/// frequency and sample rate, the phase stays in `[0, PHASE_ONE)`.
pub proof fn lemma_phase_stays_in_range(phase: u64, delta: u64)
    requires
        phase < PHASE_ONE,
    ensures
        0 <= next_phase(phase, delta) < PHASE_ONE,
{
    vstd::arithmetic::div_mod::lemma_mod_division_less_than_divisor(
        phase + delta,
        PHASE_ONE as int,
    );
    vstd::arithmetic::div_mod::lemma_mod_bound(phase + delta, PHASE_ONE as int);
}

} // verus!
