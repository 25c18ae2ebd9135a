//! One sounding note: an oscillator, a velocity/pressure gain smoother and
//! an envelope, with the note identity and the frequency fixed at trigger
//! time.
//!
//! Each produced sample is `carrier * gain * envelope`, in that order: the
//! waveform value is scaled by the smoothed velocity gain and then by the
//! envelope amplitude, each a Q16 fraction, so the result stays within
//! `[-AMP_ONE, AMP_ONE]`.

use crate::envelope::{
    position_amplitude, released_position, step_position, EnvelopeParams, EnvelopePosition,
    initial_position,
};
use crate::note::{midi_freq_millihz, midi_note_to_freq_millihz};
use crate::oscillator::{next_phase, phase_delta, waveform, Oscillator, MAX_FREQ_MILLIHZ};
use crate::smoother::{
    smoother_next, smoother_retarget, GainSmoother, SmoothingStyle,
};
use crate::units::AMP_ONE;
use vstd::arithmetic::div_mod::{lemma_div_is_ordered, lemma_div_pos_is_pos};
use vstd::prelude::*;

verus! {

/// Ramp time for per-voice velocity and pressure gain changes.
pub const GAIN_SMOOTHING_MS: u32 = 5;

/// One active voice of the pool.
#[derive(Clone, Copy, PartialEq, Eq, Structural, Debug)]
pub struct Voice {
    pub note_id: u8,
    /// Frequency in millihertz, derived from the note at trigger time and
    /// fixed for the voice's life.
    pub freq_millihz: u64,
    pub osc: Oscillator,
    pub gain: GainSmoother,
    pub envelope: EnvelopePosition,
}

/// Product of a signed waveform value with two Q16 amplitude fractions,
/// scaled back into a Q16 sample.
pub open spec fn scaled_sample(wave_val: int, gain: int, env: int) -> int {
    if wave_val >= 0 {
        wave_val * gain * env / (AMP_ONE * AMP_ONE)
    } else {
        -((-wave_val) * gain * env / (AMP_ONE * AMP_ONE))
    }
}

/// Sample a voice contributes: its waveform value at the current phase,
/// scaled by the next smoothed gain and by the current envelope amplitude.
pub open spec fn voice_output(v: Voice, params: EnvelopeParams, rate: u32) -> int {
    scaled_sample(
        waveform(v.osc.phase),
        smoother_next(v.gain).current as int,
        position_amplitude(v.envelope, params, rate),
    )
}

/// Voice state one sample later: the phase has advanced by one sample at
/// the voice's frequency, the gain by one smoothing step, the envelope by
/// one sample.
pub open spec fn voice_step(v: Voice, params: EnvelopeParams, rate: u32) -> Voice {
    Voice {
        osc: Oscillator {
            phase: next_phase(v.osc.phase, phase_delta(v.freq_millihz, rate) as u64) as u64,
        },
        gain: smoother_next(v.gain),
        envelope: step_position(v.envelope, params, rate),
        ..v
    }
}

/// Voice freshly triggered for a note: phase 0, gain ramping from silence
/// up to the velocity, envelope at its first stage.
pub open spec fn voice_for_note(note_id: u8, velocity: u64, rate: u32, params: EnvelopeParams) -> Voice {
    Voice {
        note_id,
        freq_millihz: midi_freq_millihz(note_id) as u64,
        osc: Oscillator { phase: 0 },
        gain: smoother_retarget(
            GainSmoother {
                style: SmoothingStyle::Linear { time_ms: GAIN_SMOOTHING_MS },
                current: 0,
                target: 0,
                steps_left: 0,
                steps_total: 0,
            },
            rate,
            velocity,
        ),
        envelope: initial_position(params, rate),
    }
}

impl Voice {
    pub open spec fn wf(self) -> bool {
        &&& self.osc.wf()
        &&& self.gain.wf()
        &&& self.envelope.wf()
        &&& self.freq_millihz <= MAX_FREQ_MILLIHZ
    }

    /// Triggers a voice for a note at the given velocity.
    pub fn new(note_id: u8, velocity: u64, rate: u32, params: &EnvelopeParams) -> (r: Self)
        requires
            velocity <= AMP_ONE,
        ensures
            r == voice_for_note(note_id, velocity, rate, *params),
            r.wf(),
    {
        let freq = midi_note_to_freq_millihz(note_id);
        let mut gain = GainSmoother::new(SmoothingStyle::Linear { time_ms: GAIN_SMOOTHING_MS });
        gain.set_target(rate, velocity);
        Voice {
            note_id,
            freq_millihz: freq,
            osc: Oscillator::new(),
            gain,
            envelope: EnvelopePosition::initial(params, rate),
        }
    }

    /// Produces the voice's next sample and advances all three parts by one
    /// sample.
    pub fn next_sample(&mut self, params: &EnvelopeParams, rate: u32) -> (r: i64)
        requires
            old(self).wf(),
            params.wf(),
            rate >= 1,
        ensures
            r == voice_output(*old(self), *params, rate),
            *final(self) == voice_step(*old(self), *params, rate),
            final(self).wf(),
            -(AMP_ONE as int) <= r <= AMP_ONE as int,
    {
        let s: i64 = self.osc.next_sample(self.freq_millihz, rate);
        let g: u64 = self.gain.next();
        let e: u64 = self.envelope.next_sample(params, rate);
        let mag: u64 = if s >= 0 {
            s as u64
        } else {
            (-s) as u64
        };
        proof {
            assert(mag * g <= AMP_ONE * AMP_ONE) by (nonlinear_arith)
                requires
                    mag <= AMP_ONE,
                    g <= AMP_ONE,
                    0 <= mag as int,
                    0 <= g as int,
            ;
            assert(mag * g * e <= AMP_ONE * AMP_ONE * AMP_ONE) by (nonlinear_arith)
                requires
                    mag <= AMP_ONE,
                    g <= AMP_ONE,
                    e <= AMP_ONE,
                    0 <= mag as int,
                    0 <= g as int,
                    0 <= e as int,
            ;
            lemma_div_pos_is_pos(mag * g * e, AMP_ONE * (AMP_ONE as int));
            lemma_div_is_ordered(
                mag * g * e,
                AMP_ONE * AMP_ONE * (AMP_ONE as int),
                AMP_ONE * (AMP_ONE as int),
            );
            vstd::arithmetic::div_mod::lemma_div_multiples_vanish(
                AMP_ONE as int,
                AMP_ONE * (AMP_ONE as int),
            );
        }
        let scaled: u64 = mag * g * e / (AMP_ONE * AMP_ONE);
        if s >= 0 {
            scaled as i64
        } else {
            -(scaled as i64)
        }
    }

    /// Moves the voice's envelope into its release ramp.
    pub fn release(&mut self, params: &EnvelopeParams, rate: u32)
        requires
            old(self).wf(),
            params.wf(),
        ensures
            *final(self) == (Voice {
                envelope: released_position(old(self).envelope, *params, rate),
                ..*old(self)
            }),
            final(self).wf(),
    {
        self.envelope.release(params, rate);
    }

    /// Re-targets the voice's gain smoother, for pressure changes.
    pub fn set_gain_target(&mut self, rate: u32, target: u64)
        requires
            old(self).wf(),
            target <= AMP_ONE,
        ensures
            *final(self) == (Voice {
                gain: smoother_retarget(old(self).gain, rate, target),
                ..*old(self)
            }),
            final(self).wf(),
    {
        self.gain.set_target(rate, target);
    }

    /// True exactly when the voice's envelope has completed its release.
    pub fn completed(&self) -> (r: bool)
        ensures
            r == (self.envelope is Completed),
    {
        self.envelope.is_completed()
    }
}

/// Law: a voice whose envelope has completed contributes exact silence,
/// whatever its phase and gain.
pub proof fn lemma_completed_voice_is_silent(v: Voice, params: EnvelopeParams, rate: u32)
    requires
        v.envelope is Completed,
    ensures
        voice_output(v, params, rate) == 0,
{
    let w = waveform(v.osc.phase);
    let g = smoother_next(v.gain).current as int;
    assert(position_amplitude(v.envelope, params, rate) == 0);
    if w >= 0 {
        assert(w * g * 0 == 0) by (nonlinear_arith);
        crate::units::lemma_div_le_self(0, AMP_ONE * (AMP_ONE as int));
    } else {
        assert((-w) * g * 0 == 0) by (nonlinear_arith);
        crate::units::lemma_div_le_self(0, AMP_ONE * (AMP_ONE as int));
    }
}

} // verus!
