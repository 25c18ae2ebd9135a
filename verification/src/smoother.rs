//! The gain smoother: a per-sample ramp of an amplitude from its current
//! value toward a target, used for per-voice velocity and pressure gain.
//!
//! The linear style covers a constant fraction of the original distance
//! each sample and lands on the target exactly when the configured ramp
//! time runs out. The exponential style covers a fixed fraction of the
//! *remaining* distance each sample, so it approaches the target ever more
//! gently, and snaps to it when the ramp time runs out. Neither style ever
//! overshoots.

use crate::units::{lemma_div_le_self, ms_to_samples, samples_of_ms, AMP_ONE};
use vstd::prelude::*;

verus! {

/// How a smoother moves toward its target; the time is the configured ramp
/// length in milliseconds.
#[derive(Clone, Copy, PartialEq, Eq, Structural, Debug)]
pub enum SmoothingStyle {
    Linear { time_ms: u32 },
    Exponential { time_ms: u32 },
}

impl SmoothingStyle {
    /// The configured ramp time in milliseconds.
    pub open spec fn time_ms(self) -> u32 {
        match self {
            SmoothingStyle::Linear { time_ms } => time_ms,
            SmoothingStyle::Exponential { time_ms } => time_ms,
        }
    }
}

/// Smoother state: the amplitude now, the amplitude aimed at, and how many
/// samples of the configured ramp are left.
#[derive(Clone, Copy, PartialEq, Eq, Structural, Debug)]
pub struct GainSmoother {
    pub style: SmoothingStyle,
    pub current: u64,
    pub target: u64,
    pub steps_left: u64,
    pub steps_total: u64,
}

/// One step of `value` toward `target`, covering a `k`-th of the distance
/// between them.
pub open spec fn step_toward(value: int, target: int, k: int) -> int {
    if value <= target {
        value + (target - value) / k
    } else {
        value - (value - target) / k
    }
}

/// Divisor one smoothing step divides the distance by: the remaining step
/// count for a linear ramp, the full step count for an exponential one.
pub open spec fn smoother_divisor(s: GainSmoother) -> int {
    match s.style {
        SmoothingStyle::Linear { .. } => s.steps_left as int,
        SmoothingStyle::Exponential { .. } => if s.steps_total > 0 {
            s.steps_total as int
        } else {
            s.steps_left as int
        },
    }
}

/// Smoother state after producing one sample: done ramps hold the target;
/// a live ramp moves the current value one step toward the target and uses
/// up one sample of ramp time.
pub open spec fn smoother_next(s: GainSmoother) -> GainSmoother {
    if s.steps_left == 0 {
        GainSmoother { current: s.target, ..s }
    } else {
        GainSmoother {
            current: step_toward(s.current as int, s.target as int, smoother_divisor(s)) as u64,
            steps_left: (s.steps_left - 1) as u64,
            ..s
        }
    }
}

/// Smoother state after aiming at a new target: the current value is kept
/// and the configured ramp time restarts.
pub open spec fn smoother_retarget(s: GainSmoother, rate: u32, target: u64) -> GainSmoother {
    GainSmoother {
        target,
        steps_left: samples_of_ms(s.style.time_ms(), rate) as u64,
        steps_total: samples_of_ms(s.style.time_ms(), rate) as u64,
        ..s
    }
}

impl GainSmoother {
    pub open spec fn wf(self) -> bool {
        &&& self.current <= AMP_ONE
        &&& self.target <= AMP_ONE
    }

    /// A fresh smoother rests at zero amplitude.
    pub fn new(style: SmoothingStyle) -> (r: Self)
        ensures
            r == (GainSmoother { style, current: 0, target: 0, steps_left: 0, steps_total: 0 }),
            r.wf(),
    {
        GainSmoother { style, current: 0, target: 0, steps_left: 0, steps_total: 0 }
    }

    /// Jumps the smoother to `value` with no ramp in flight.
    pub fn reset(&mut self, value: u64)
        requires
            value <= AMP_ONE,
        ensures
            *final(self) == (GainSmoother {
                style: old(self).style,
                current: value,
                target: value,
                steps_left: 0,
                steps_total: 0,
            }),
            final(self).wf(),
    {
        self.current = value;
        self.target = value;
        self.steps_left = 0;
        self.steps_total = 0;
    }

    /// Aims the smoother at a new target, restarting the configured ramp
    /// time at the given sample rate. The current value is kept, so the
    /// ramp picks up from wherever the smoother was.
    pub fn set_target(&mut self, rate: u32, target: u64)
        requires
            old(self).wf(),
            target <= AMP_ONE,
        ensures
            *final(self) == smoother_retarget(*old(self), rate, target),
            final(self).wf(),
    {
        let time_ms = match self.style {
            SmoothingStyle::Linear { time_ms } => time_ms,
            SmoothingStyle::Exponential { time_ms } => time_ms,
        };
        let steps = ms_to_samples(time_ms, rate);
        self.target = target;
        self.steps_left = steps;
        self.steps_total = steps;
    }

    /// Produces the next smoothed amplitude: one step of the ramp, never
    /// overshooting and never leaving the interval between the old value
    /// and the target.
    pub fn next(&mut self) -> (r: u64)
        requires
            old(self).wf(),
        ensures
            *final(self) == smoother_next(*old(self)),
            r == final(self).current,
            final(self).wf(),
            old(self).current <= old(self).target ==> old(self).current <= r <= old(
                self,
            ).target,
            old(self).target <= old(self).current ==> old(self).target <= r <= old(
                self,
            ).current,
    {
        if self.steps_left == 0 {
            self.current = self.target;
        } else {
            let k: u64 = match self.style {
                SmoothingStyle::Linear { .. } => self.steps_left,
                SmoothingStyle::Exponential { .. } => if self.steps_total > 0 {
                    self.steps_total
                } else {
                    self.steps_left
                },
            };
            if self.current <= self.target {
                let diff: u64 = self.target - self.current;
                proof {
                    lemma_div_le_self(diff as int, k as int);
                }
                self.current = self.current + diff / k;
            } else {
                let diff: u64 = self.current - self.target;
                proof {
                    lemma_div_le_self(diff as int, k as int);
                }
                self.current = self.current - diff / k;
            }
            self.steps_left = self.steps_left - 1;
        }
        self.current
    }
}

/// Smoother state after `n` produced samples.
pub open spec fn smoother_after(s: GainSmoother, n: nat) -> GainSmoother
    decreases n,
{
    if n == 0 {
        s
    } else {
        smoother_after(smoother_next(s), (n - 1) as nat)
    }
}

/// Law: a linear ramp reaches its target exactly when the configured ramp
/// time runs out — after `steps_left` samples (one sample, if none are
/// left).
pub proof fn lemma_linear_ramp_arrives(s: GainSmoother)
    requires
        s.wf(),
        s.style is Linear,
    ensures
        s.steps_left == 0 ==> smoother_after(s, 1).current == s.target,
        s.steps_left > 0 ==> smoother_after(s, s.steps_left as nat).current == s.target,
    decreases s.steps_left,
{
    if s.steps_left == 0 {
        assert(smoother_after(s, 1) == smoother_after(smoother_next(s), 0));
    } else {
        let k = s.steps_left as int;
        let s2 = smoother_next(s);
        if s.current <= s.target {
            crate::units::lemma_div_le_self(s.target - s.current, k);
        } else {
            crate::units::lemma_div_le_self(s.current - s.target, k);
        }
        if s.steps_left == 1 {
            if s.current <= s.target {
                crate::units::lemma_div_by_one(s.target - s.current);
            } else {
                crate::units::lemma_div_by_one(s.current - s.target);
            }
            assert(s2.current == s.target);
            assert(smoother_after(s, 1) == smoother_after(s2, 0));
        } else {
            lemma_linear_ramp_arrives(s2);
            assert(smoother_after(s, s.steps_left as nat) == smoother_after(
                s2,
                s2.steps_left as nat,
            ));
        }
    }
}

} // verus!
