//! The per-voice envelope generator: a multi-phase state machine that
//! computes an amplitude multiplier in `[0, AMP_ONE]` and advances by
//! exactly one sample per call.
//!
//! Stages run `Attack -> Hold -> Decay -> Sustain`, with `Release`
//! reachable from any of them and `Completed` reachable only from
//! `Release`. A stage whose duration rounds to zero samples is skipped
//! instantly. Every ramp is linear, reaches its target value exactly at
//! the end of the stage, and never overshoots.

use crate::units::{
    lemma_lerp_bounds, lemma_lerp_monotone, lerp, lerp_amp, ms_to_samples, samples_of_ms, AMP_ONE,
};
use vstd::prelude::*;

verus! {

/// The ADSR(+hold) policy shared by reference across all voices. Durations
/// are in whole milliseconds; the sustain level is a Q16 amplitude.
#[derive(Clone, Copy, PartialEq, Eq, Structural, Debug)]
pub struct EnvelopeParams {
    pub attack_ms: u32,
    pub hold_ms: u32,
    pub decay_ms: u32,
    /// Amplitude held during `Sustain`, at most `AMP_ONE`.
    pub sustain_level: u64,
    pub release_ms: u32,
}

impl EnvelopeParams {
    pub open spec fn wf(self) -> bool {
        self.sustain_level <= AMP_ONE
    }

    /// Length of the attack stage in samples at the given sample rate.
    pub open spec fn attack_len(self, rate: u32) -> int {
        samples_of_ms(self.attack_ms, rate)
    }

    /// Length of the hold stage in samples at the given sample rate.
    pub open spec fn hold_len(self, rate: u32) -> int {
        samples_of_ms(self.hold_ms, rate)
    }

    /// Length of the decay stage in samples at the given sample rate.
    pub open spec fn decay_len(self, rate: u32) -> int {
        samples_of_ms(self.decay_ms, rate)
    }

    /// Length of the release stage in samples at the given sample rate.
    pub open spec fn release_len(self, rate: u32) -> int {
        samples_of_ms(self.release_ms, rate)
    }

    /// Builds a parameter set. A sustain level beyond full amplitude is
    /// clamped to `AMP_ONE`, so the result is always well-formed.
    pub fn new(
        attack_ms: u32,
        hold_ms: u32,
        decay_ms: u32,
        sustain_level: u64,
        release_ms: u32,
    ) -> (r: Self)
        ensures
            r.wf(),
            r.attack_ms == attack_ms,
            r.hold_ms == hold_ms,
            r.decay_ms == decay_ms,
            r.release_ms == release_ms,
            r.sustain_level == if sustain_level <= AMP_ONE {
                sustain_level
            } else {
                AMP_ONE
            },
    {
        let clamped: u64 = if sustain_level > AMP_ONE {
            AMP_ONE
        } else {
            sustain_level
        };
        EnvelopeParams { attack_ms, hold_ms, decay_ms, sustain_level: clamped, release_ms }
    }
}

/// The mutable per-voice state of the envelope. Stage progress and hold
/// time are counted in samples; the captured release level is a Q16
/// amplitude.
#[derive(Clone, Copy, PartialEq, Eq, Structural, Debug)]
pub enum EnvelopePosition {
    Attack { progress: u64 },
    Hold { remaining: u64 },
    Decay { progress: u64 },
    Sustain,
    Release { progress: u64, level_at_release: u64 },
    Completed,
}

/// Stage entered when the attack stage ends: hold if it lasts at least one
/// sample, else decay if it does, else sustain directly.
pub open spec fn stage_after_attack(params: EnvelopeParams, rate: u32) -> EnvelopePosition {
    if params.hold_len(rate) > 0 {
        EnvelopePosition::Hold { remaining: params.hold_len(rate) as u64 }
    } else {
        stage_after_hold(params, rate)
    }
}

/// Stage entered when the hold stage ends.
pub open spec fn stage_after_hold(params: EnvelopeParams, rate: u32) -> EnvelopePosition {
    if params.decay_len(rate) > 0 {
        EnvelopePosition::Decay { progress: 0 }
    } else {
        EnvelopePosition::Sustain
    }
}

/// State of a freshly triggered envelope: the first stage that lasts at
/// least one sample, or sustain when every stage before it rounds to zero.
pub open spec fn initial_position(params: EnvelopeParams, rate: u32) -> EnvelopePosition {
    if params.attack_len(rate) > 0 {
        EnvelopePosition::Attack { progress: 0 }
    } else {
        stage_after_attack(params, rate)
    }
}

/// Amplitude emitted by a position: a linear ramp from 0 to full over the
/// attack, full during hold, a linear ramp from full down to the sustain
/// level over the decay, and a linear ramp from the captured level down to
/// 0 over the release.
pub open spec fn position_amplitude(pos: EnvelopePosition, params: EnvelopeParams, rate: u32) -> int {
    match pos {
        EnvelopePosition::Attack { progress } => lerp(
            0,
            AMP_ONE as int,
            progress as int,
            params.attack_len(rate),
        ),
        EnvelopePosition::Hold { .. } => AMP_ONE as int,
        EnvelopePosition::Decay { progress } => lerp(
            AMP_ONE as int,
            params.sustain_level as int,
            progress as int,
            params.decay_len(rate),
        ),
        EnvelopePosition::Sustain => params.sustain_level as int,
        EnvelopePosition::Release { progress, level_at_release } => lerp(
            level_at_release as int,
            0,
            progress as int,
            params.release_len(rate),
        ),
        EnvelopePosition::Completed => 0,
    }
}

/// Position after one sample: progress advances by one sample and the
/// position moves to the next stage once it reaches the stage's length.
pub open spec fn step_position(pos: EnvelopePosition, params: EnvelopeParams, rate: u32) -> EnvelopePosition {
    match pos {
        EnvelopePosition::Attack { progress } => if progress + 1 >= params.attack_len(rate) {
            stage_after_attack(params, rate)
        } else {
            EnvelopePosition::Attack { progress: (progress + 1) as u64 }
        },
        EnvelopePosition::Hold { remaining } => if remaining <= 1 {
            stage_after_hold(params, rate)
        } else {
            EnvelopePosition::Hold { remaining: (remaining - 1) as u64 }
        },
        EnvelopePosition::Decay { progress } => if progress + 1 >= params.decay_len(rate) {
            EnvelopePosition::Sustain
        } else {
            EnvelopePosition::Decay { progress: (progress + 1) as u64 }
        },
        EnvelopePosition::Sustain => EnvelopePosition::Sustain,
        EnvelopePosition::Release { progress, level_at_release } => if progress + 1
            >= params.release_len(rate) {
            EnvelopePosition::Completed
        } else {
            EnvelopePosition::Release { progress: (progress + 1) as u64, level_at_release }
        },
        EnvelopePosition::Completed => EnvelopePosition::Completed,
    }
}

/// Position after a release request: attack, hold, decay and sustain move
/// to a release ramp that starts at the amplitude the envelope was at; a
/// position already releasing or completed is left alone.
pub open spec fn released_position(pos: EnvelopePosition, params: EnvelopeParams, rate: u32) -> EnvelopePosition {
    match pos {
        EnvelopePosition::Release { .. } => pos,
        EnvelopePosition::Completed => pos,
        _ => EnvelopePosition::Release {
            progress: 0,
            level_at_release: position_amplitude(pos, params, rate) as u64,
        },
    }
}

impl EnvelopePosition {
    pub open spec fn wf(self) -> bool {
        self matches EnvelopePosition::Release { level_at_release, .. } ==> level_at_release
            <= AMP_ONE
    }

    /// Envelope state of a freshly triggered note.
    pub fn initial(params: &EnvelopeParams, rate: u32) -> (r: Self)
        ensures
            r == initial_position(*params, rate),
            r.wf(),
    {
        let alen = ms_to_samples(params.attack_ms, rate);
        if alen > 0 {
            EnvelopePosition::Attack { progress: 0 }
        } else {
            Self::after_attack(params, rate)
        }
    }

    fn after_attack(params: &EnvelopeParams, rate: u32) -> (r: Self)
        ensures
            r == stage_after_attack(*params, rate),
            r.wf(),
    {
        let hlen = ms_to_samples(params.hold_ms, rate);
        if hlen > 0 {
            EnvelopePosition::Hold { remaining: hlen }
        } else {
            Self::after_hold(params, rate)
        }
    }

    fn after_hold(params: &EnvelopeParams, rate: u32) -> (r: Self)
        ensures
            r == stage_after_hold(*params, rate),
            r.wf(),
    {
        let dlen = ms_to_samples(params.decay_ms, rate);
        if dlen > 0 {
            EnvelopePosition::Decay { progress: 0 }
        } else {
            EnvelopePosition::Sustain
        }
    }

    /// Amplitude multiplier this position stands for, in `[0, AMP_ONE]`.
    pub fn amplitude(&self, params: &EnvelopeParams, rate: u32) -> (r: u64)
        requires
            self.wf(),
            params.wf(),
        ensures
            r == position_amplitude(*self, *params, rate),
            r <= AMP_ONE,
    {
        match *self {
            EnvelopePosition::Attack { progress } => lerp_amp(
                0,
                AMP_ONE,
                progress,
                ms_to_samples(params.attack_ms, rate),
            ),
            EnvelopePosition::Hold { .. } => AMP_ONE,
            EnvelopePosition::Decay { progress } => lerp_amp(
                AMP_ONE,
                params.sustain_level,
                progress,
                ms_to_samples(params.decay_ms, rate),
            ),
            EnvelopePosition::Sustain => params.sustain_level,
            EnvelopePosition::Release { progress, level_at_release } => lerp_amp(
                level_at_release,
                0,
                progress,
                ms_to_samples(params.release_ms, rate),
            ),
            EnvelopePosition::Completed => 0,
        }
    }

    /// Emits the amplitude for the current sample, then advances the state
    /// machine by one sample.
    pub fn next_sample(&mut self, params: &EnvelopeParams, rate: u32) -> (r: u64)
        requires
            old(self).wf(),
            params.wf(),
        ensures
            r == position_amplitude(*old(self), *params, rate),
            r <= AMP_ONE,
            *final(self) == step_position(*old(self), *params, rate),
            final(self).wf(),
    {
        let r = self.amplitude(params, rate);
        match *self {
            EnvelopePosition::Attack { progress } => {
                let alen = ms_to_samples(params.attack_ms, rate);
                if progress >= alen || progress + 1 >= alen {
                    *self = Self::after_attack(params, rate);
                } else {
                    *self = EnvelopePosition::Attack { progress: progress + 1 };
                }
            },
            EnvelopePosition::Hold { remaining } => {
                if remaining <= 1 {
                    *self = Self::after_hold(params, rate);
                } else {
                    *self = EnvelopePosition::Hold { remaining: remaining - 1 };
                }
            },
            EnvelopePosition::Decay { progress } => {
                let dlen = ms_to_samples(params.decay_ms, rate);
                if progress >= dlen || progress + 1 >= dlen {
                    *self = EnvelopePosition::Sustain;
                } else {
                    *self = EnvelopePosition::Decay { progress: progress + 1 };
                }
            },
            EnvelopePosition::Sustain => {},
            EnvelopePosition::Release { progress, level_at_release } => {
                let rlen = ms_to_samples(params.release_ms, rate);
                if progress >= rlen || progress + 1 >= rlen {
                    *self = EnvelopePosition::Completed;
                } else {
                    *self = EnvelopePosition::Release {
                        progress: progress + 1,
                        level_at_release,
                    };
                }
            },
            EnvelopePosition::Completed => {},
        }
        r
    }

    /// Moves the envelope into its release ramp, capturing the amplitude it
    /// is currently at; a no-op when already releasing or completed.
    pub fn release(&mut self, params: &EnvelopeParams, rate: u32)
        requires
            old(self).wf(),
            params.wf(),
        ensures
            *final(self) == released_position(*old(self), *params, rate),
            final(self).wf(),
    {
        match *self {
            EnvelopePosition::Release { .. } => {},
            EnvelopePosition::Completed => {},
            _ => {
                let level = self.amplitude(params, rate);
                *self = EnvelopePosition::Release { progress: 0, level_at_release: level };
            },
        }
    }

    /// True exactly when the envelope has finished its release ramp.
    pub fn is_completed(&self) -> (r: bool)
        ensures
            r == (*self is Completed),
    {
        matches!(*self, EnvelopePosition::Completed)
    }
}

/// Every position's amplitude lies in `[0, AMP_ONE]`.
pub proof fn lemma_amplitude_bounded(pos: EnvelopePosition, params: EnvelopeParams, rate: u32)
    requires
        pos.wf(),
        params.wf(),
    ensures
        0 <= position_amplitude(pos, params, rate) <= AMP_ONE,
{
    match pos {
        EnvelopePosition::Attack { progress } => {
            lemma_lerp_bounds(0, AMP_ONE as int, progress as int, params.attack_len(rate));
        },
        EnvelopePosition::Decay { progress } => {
            lemma_lerp_bounds(
                AMP_ONE as int,
                params.sustain_level as int,
                progress as int,
                params.decay_len(rate),
            );
        },
        EnvelopePosition::Release { progress, level_at_release } => {
            lemma_lerp_bounds(level_at_release as int, 0, progress as int, params.release_len(rate));
        },
        _ => {},
    }
}

/// Law: while the envelope is attacking, and a hold or decay stage of at
/// least one sample follows, the amplitude never decreases from one sample
/// to the next.
pub proof fn lemma_attack_amplitude_non_decreasing(
    pos: EnvelopePosition,
    params: EnvelopeParams,
    rate: u32,
)
    requires
        pos.wf(),
        params.wf(),
        pos is Attack,
        params.hold_len(rate) > 0 || params.decay_len(rate) > 0,
    ensures
        position_amplitude(pos, params, rate) <= position_amplitude(
            step_position(pos, params, rate),
            params,
            rate,
        ),
{
    let progress = pos->Attack_progress;
    crate::units::lemma_samples_of_ms_bound(params.attack_ms, rate);
    lemma_amplitude_bounded(pos, params, rate);
    if progress + 1 >= params.attack_len(rate) {
        lemma_amplitude_bounded(step_position(pos, params, rate), params, rate);
        if params.hold_len(rate) == 0 {
            // the next position is the start of the decay ramp, at full amplitude
            assert(position_amplitude(step_position(pos, params, rate), params, rate) == lerp(
                AMP_ONE as int,
                params.sustain_level as int,
                0,
                params.decay_len(rate),
            ));
        }
    } else {
        lemma_lerp_monotone(
            0,
            AMP_ONE as int,
            progress as int,
            progress + 1,
            params.attack_len(rate),
        );
    }
}

/// Law: when the attack stage ends with hold disabled and a decay stage of
/// at least one sample, the envelope enters the decay ramp and the first
/// decay amplitude is exactly full scale.
pub proof fn lemma_attack_decay_boundary(pos: EnvelopePosition, params: EnvelopeParams, rate: u32)
    requires
        pos.wf(),
        params.wf(),
        pos matches EnvelopePosition::Attack { progress } && progress + 1 >= params.attack_len(
            rate,
        ),
        params.hold_len(rate) == 0,
        params.decay_len(rate) > 0,
    ensures
        step_position(pos, params, rate) == (EnvelopePosition::Decay { progress: 0 }),
        position_amplitude(step_position(pos, params, rate), params, rate) == AMP_ONE,
{
}

/// Law: while the envelope is decaying, the amplitude never increases from
/// one sample to the next, and when the decay stage ends the envelope holds
/// exactly the sustain level.
pub proof fn lemma_decay_amplitude_non_increasing(
    pos: EnvelopePosition,
    params: EnvelopeParams,
    rate: u32,
)
    requires
        pos.wf(),
        params.wf(),
        pos is Decay,
    ensures
        position_amplitude(step_position(pos, params, rate), params, rate) <= position_amplitude(
            pos,
            params,
            rate,
        ),
        pos->Decay_progress + 1 >= params.decay_len(rate) ==> {
            &&& step_position(pos, params, rate) == EnvelopePosition::Sustain
            &&& position_amplitude(step_position(pos, params, rate), params, rate)
                == params.sustain_level
        },
{
    let progress = pos->Decay_progress;
    crate::units::lemma_samples_of_ms_bound(params.decay_ms, rate);
    if progress + 1 >= params.decay_len(rate) {
        lemma_lerp_bounds(
            AMP_ONE as int,
            params.sustain_level as int,
            progress as int,
            params.decay_len(rate),
        );
    } else {
        lemma_lerp_monotone(
            AMP_ONE as int,
            params.sustain_level as int,
            progress as int,
            progress + 1,
            params.decay_len(rate),
        );
    }
}

/// Law: releasing an envelope in any stage before release produces a
/// release ramp that starts at the amplitude the envelope was at — not at
/// full scale and not at the sustain level. With a release stage of at
/// least one sample, the first released amplitude equals that captured
/// level.
pub proof fn lemma_release_starts_at_current_amplitude(
    pos: EnvelopePosition,
    params: EnvelopeParams,
    rate: u32,
)
    requires
        pos.wf(),
        params.wf(),
        !(pos is Release),
        !(pos is Completed),
        params.release_len(rate) > 0,
    ensures
        released_position(pos, params, rate) == (EnvelopePosition::Release {
            progress: 0,
            level_at_release: position_amplitude(pos, params, rate) as u64,
        }),
        position_amplitude(released_position(pos, params, rate), params, rate)
            == position_amplitude(pos, params, rate),
{
    lemma_amplitude_bounded(pos, params, rate);
    let level = position_amplitude(pos, params, rate);
    assert(lerp(level, 0, 0, params.release_len(rate)) == level);
}

} // verus!
