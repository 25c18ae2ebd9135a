//! The synthesis core's top level: one instrument that turns the events
//! and parameters of one audio block into samples.
//!
//! Per block it reclaims completed voices, then walks the block with the
//! event scheduler, applying every due event to the voice pool at its
//! exact sample and summing the voices for each produced sample, scaled by
//! the master gain. The whole block's output equals a per-sample
//! interpretation of that process, stated by [`render_block`].

use crate::envelope::EnvelopeParams;
use crate::event::{events_sorted, events_wf, NoteEvent};
use crate::pool::{
    pool_advance, pool_apply_event, pool_reclaim, pool_sum, VoicePool, MAX_VOICES,
};
use crate::scheduler::{EventScheduler, SchedulerStep};
use crate::units::{lemma_mul_div_le_full, AMP_ONE};
use crate::voice::Voice;
use vstd::prelude::*;

verus! {

/// A raw voice sum scaled by the master gain, a Q16 fraction.
pub open spec fn scale_by_gain(sum: int, master_gain: u64) -> int {
    if sum >= 0 {
        sum * master_gain / (AMP_ONE as int)
    } else {
        -((-sum) * master_gain / (AMP_ONE as int))
    }
}

/// Everything one block hands the core besides the events: the envelope
/// policy and the already-smoothed master gain.
#[derive(Clone, Copy, PartialEq, Eq, Structural, Debug)]
pub struct BlockParams {
    pub envelope: EnvelopeParams,
    /// Linear master gain as a Q16 fraction of unity, at most `AMP_ONE`.
    pub master_gain: u64,
}

impl BlockParams {
    pub open spec fn wf(self) -> bool {
        &&& self.envelope.wf()
        &&& self.master_gain <= AMP_ONE
    }

    /// Builds block parameters; a master gain beyond unity is clamped.
    pub fn new(envelope: EnvelopeParams, master_gain: u64) -> (r: Self)
        requires
            envelope.wf(),
        ensures
            r.envelope == envelope,
            r.master_gain == if master_gain <= AMP_ONE {
                master_gain
            } else {
                AMP_ONE
            },
            r.wf(),
    {
        let g: u64 = if master_gain > AMP_ONE {
            AMP_ONE
        } else {
            master_gain
        };
        BlockParams { envelope, master_gain: g }
    }
}

/// Samples and final slot table of rendering from a given position: at
/// each sample index, first every event due at or before it is applied in
/// stream order, then all voices are advanced and summed and the sum is
/// scaled by the master gain.
pub open spec fn render_from(
    s: Seq<Option<Voice>>,
    events: Seq<NoteEvent>,
    next: int,
    cursor: int,
    block_len: u32,
    params: EnvelopeParams,
    master_gain: u64,
    rate: u32,
) -> (Seq<i64>, Seq<Option<Voice>>)
    decreases block_len - cursor, events.len() - next,
        when 0 <= cursor <= block_len && 0 <= next <= events.len()
{
    if cursor >= block_len {
        (Seq::<i64>::empty(), s)
    } else if next < events.len() && events[next].spec_timing() <= cursor {
        render_from(
            pool_apply_event(s, events[next], rate, params),
            events,
            next + 1,
            cursor,
            block_len,
            params,
            master_gain,
            rate,
        )
    } else {
        let sample = scale_by_gain(pool_sum(s, params, rate), master_gain) as i64;
        let rest = render_from(
            pool_advance(s, params, rate),
            events,
            next,
            cursor + 1,
            block_len,
            params,
            master_gain,
            rate,
        );
        (seq![sample] + rest.0, rest.1)
    }
}

/// Samples and final slot table of one whole block: completed voices are
/// reclaimed first, then the block renders from its start.
pub open spec fn render_block(
    s: Seq<Option<Voice>>,
    events: Seq<NoteEvent>,
    block_len: u32,
    params: EnvelopeParams,
    master_gain: u64,
    rate: u32,
) -> (Seq<i64>, Seq<Option<Voice>>) {
    render_from(pool_reclaim(s), events, 0, 0, block_len, params, master_gain, rate)
}

/// Scales a voice sum by the master gain, handling the sign so the
/// truncating machine division computes exactly `scale_by_gain`.
fn scale_master(sum: i64, master_gain: u64) -> (r: i64)
    requires
        -((MAX_VOICES * AMP_ONE) as int) <= sum <= (MAX_VOICES * AMP_ONE) as int,
        master_gain <= AMP_ONE,
    ensures
        r == scale_by_gain(sum as int, master_gain),
        -((MAX_VOICES * AMP_ONE) as int) <= r <= (MAX_VOICES * AMP_ONE) as int,
{
    let mag: u64 = if sum >= 0 {
        sum as u64
    } else {
        (-sum) as u64
    };
    proof {
        assert(mag * master_gain <= (MAX_VOICES * AMP_ONE) as int * (AMP_ONE as int))
            by (nonlinear_arith)
            requires
                0 <= mag as int <= (MAX_VOICES * AMP_ONE) as int,
                0 <= master_gain as int <= AMP_ONE as int,
        ;
        lemma_mul_div_le_full(mag as int, master_gain as int, AMP_ONE as int);
    }
    let scaled: u64 = mag * master_gain / AMP_ONE;
    if sum >= 0 {
        scaled as i64
    } else {
        -(scaled as i64)
    }
}

/// The instrument: a sample rate and a bounded voice pool.
pub struct Synth {
    pub sample_rate: u32,
    pub pool: VoicePool,
}

impl Synth {
    pub open spec fn wf(self) -> bool {
        &&& self.sample_rate >= 1
        &&& self.pool.wf()
    }

    /// Builds an instrument with the given polyphony bound; all voice
    /// storage is reserved here, ahead of any audio.
    pub fn new(sample_rate: u32, max_voices: usize) -> (r: Self)
        requires
            sample_rate >= 1,
            max_voices <= MAX_VOICES,
        ensures
            r.sample_rate == sample_rate,
            r.pool.slots@.len() == max_voices,
            forall|i: int| 0 <= i < max_voices ==> r.pool.slots@[i] is None,
            r.wf(),
    {
        Synth { sample_rate, pool: VoicePool::new(max_voices) }
    }

    /// Adopts a new sample rate for the blocks to come.
    pub fn set_sample_rate(&mut self, rate: u32)
        requires
            old(self).wf(),
            rate >= 1,
        ensures
            final(self).sample_rate == rate,
            final(self).pool == old(self).pool,
            final(self).wf(),
    {
        self.sample_rate = rate;
    }

    /// Clears all voices, and with them every oscillator phase; called
    /// when the host resets playback.
    pub fn reset(&mut self)
        requires
            old(self).wf(),
        ensures
            final(self).sample_rate == old(self).sample_rate,
            final(self).pool.slots@.len() == old(self).pool.slots@.len(),
            forall|i: int|
                0 <= i < final(self).pool.slots@.len() ==> final(self).pool.slots@[i] is None,
            final(self).wf(),
    {
        self.pool.clear();
    }

    /// Renders one block: writes exactly `block_len` samples into `out`
    /// (replacing its contents), applying each event at the sample it is
    /// timestamped for. Events timestamped at or past `block_len` are left
    /// unconsumed for a later block.
    pub fn process_block(
        &mut self,
        events: &Vec<NoteEvent>,
        block_len: u32,
        params: &BlockParams,
        out: &mut Vec<i64>,
    )
        requires
            old(self).wf(),
            params.wf(),
            events_wf(events@),
            events_sorted(events@),
        ensures
            final(self).wf(),
            final(self).sample_rate == old(self).sample_rate,
            final(self).pool.slots@.len() == old(self).pool.slots@.len(),
            final(out)@ == render_block(
                old(self).pool.slots@,
                events@,
                block_len,
                params.envelope,
                params.master_gain,
                old(self).sample_rate,
            ).0,
            final(self).pool.slots@ == render_block(
                old(self).pool.slots@,
                events@,
                block_len,
                params.envelope,
                params.master_gain,
                old(self).sample_rate,
            ).1,
            final(out)@.len() == block_len,
    {
        let rate = self.sample_rate;
        let master = params.master_gain;
        let env = &params.envelope;
        out.clear();
        self.pool.reclaim_completed();
        let ghost s_start = self.pool.slots@;
        let ghost pool_len = self.pool.slots@.len();
        let mut sched = EventScheduler::new();
        while sched.cursor < block_len
            invariant
                sched.wf(events@, block_len),
                events_wf(events@),
                self.pool.wf(),
                self.pool.slots@.len() == pool_len,
                self.sample_rate == rate,
                env.wf(),
                master <= AMP_ONE,
                rate >= 1,
                out@.len() == sched.cursor,
                render_from(s_start, events@, 0, 0, block_len, *env, master, rate).0 == out@
                    + render_from(
                    self.pool.slots@,
                    events@,
                    sched.next_event as int,
                    sched.cursor as int,
                    block_len,
                    *env,
                    master,
                    rate,
                ).0,
                render_from(s_start, events@, 0, 0, block_len, *env, master, rate).1
                    == render_from(
                    self.pool.slots@,
                    events@,
                    sched.next_event as int,
                    sched.cursor as int,
                    block_len,
                    *env,
                    master,
                    rate,
                ).1,
            decreases block_len - sched.cursor, events@.len() - sched.next_event,
        {
            let ghost cursor0 = sched.cursor;
            let ghost next0 = sched.next_event;
            let step = sched.step(events, block_len);
            match step {
                SchedulerStep::BlockDone => {
                    proof {
                        assert(false);
                    }
                },
                SchedulerStep::Apply { event } => {
                    proof {
                        assert(render_from(
                            self.pool.slots@,
                            events@,
                            next0 as int,
                            cursor0 as int,
                            block_len,
                            *env,
                            master,
                            rate,
                        ) == render_from(
                            pool_apply_event(self.pool.slots@, event, rate, *env),
                            events@,
                            next0 + 1,
                            cursor0 as int,
                            block_len,
                            *env,
                            master,
                            rate,
                        ));
                    }
                    self.pool.apply_event(&event, rate, env);
                },
                SchedulerStep::Produce { start, end } => {
                    let mut t: u32 = start;
                    while t < end
                        invariant
                            start <= t <= end,
                            end <= block_len,
                            out@.len() == t,
                            self.pool.wf(),
                            self.pool.slots@.len() == pool_len,
                            self.sample_rate == rate,
                            env.wf(),
                            master <= AMP_ONE,
                            rate >= 1,
                            sched.cursor == end,
                            sched.next_event == next0,
                            next0 <= events@.len(),
                            next0 == events@.len() || events@[next0 as int].spec_timing()
                                >= end,
                            render_from(s_start, events@, 0, 0, block_len, *env, master, rate).0
                                == out@ + render_from(
                                self.pool.slots@,
                                events@,
                                next0 as int,
                                t as int,
                                block_len,
                                *env,
                                master,
                                rate,
                            ).0,
                            render_from(s_start, events@, 0, 0, block_len, *env, master, rate).1
                                == render_from(
                                self.pool.slots@,
                                events@,
                                next0 as int,
                                t as int,
                                block_len,
                                *env,
                                master,
                                rate,
                            ).1,
                        decreases end - t,
                    {
                        let ghost slots_t = self.pool.slots@;
                        let ghost out_t = out@;
                        let sum = self.pool.advance_and_sum(env, rate);
                        proof {
                            assert((MAX_VOICES * AMP_ONE) as int == MAX_VOICES as int * (
                            AMP_ONE as int));
                            assert(pool_len * AMP_ONE <= MAX_VOICES as int * (AMP_ONE as int))
                                by (nonlinear_arith)
                                requires
                                    0 <= pool_len <= MAX_VOICES as int,
                            ;
                        }
                        let sample = scale_master(sum, master);
                        out.push(sample);
                        t = t + 1;
                        proof {
                            let one = seq![sample];
                            let rest = render_from(
                                self.pool.slots@,
                                events@,
                                next0 as int,
                                t as int,
                                block_len,
                                *env,
                                master,
                                rate,
                            );
                            assert(render_from(
                                slots_t,
                                events@,
                                next0 as int,
                                t - 1,
                                block_len,
                                *env,
                                master,
                                rate,
                            ).0 == one + rest.0);
                            assert(out_t + (one + rest.0) =~= (out_t + one) + rest.0);
                        }
                    }
                },
            }
        }
        proof {
            assert(out@ + Seq::<i64>::empty() =~= out@);
        }
    }
}

} // verus!

