//! The voice pool: a bounded slot table of concurrently sounding voices,
//! keyed by note identity.
//!
//! The pool allocates a voice on note-on (or silently drops the event when
//! full — polyphony is bounded and there is no voice stealing), releases on
//! note-off, re-targets gain on pressure, sums all voices' samples by
//! addition, and reclaims voices whose envelopes have completed. At most
//! one live (non-completed) voice exists per note id at any time.

use crate::envelope::{released_position, EnvelopeParams};
use crate::event::NoteEvent;
use crate::smoother::smoother_retarget;
use crate::units::AMP_ONE;
use crate::voice::{voice_for_note, voice_output, voice_step, Voice};
use vstd::prelude::*;

verus! {

/// Hard ceiling on the pool's capacity; it keeps the sample sum far from
/// the edges of 64 bits.
pub const MAX_VOICES: usize = 65536;

/// A slot holding a voice whose envelope has not completed.
pub open spec fn slot_live(slot: Option<Voice>) -> bool {
    slot matches Some(v) && !(v.envelope is Completed)
}

/// A slot holding a live voice for the given note.
pub open spec fn slot_is_active(slot: Option<Voice>, note_id: u8) -> bool {
    slot matches Some(v) && !(v.envelope is Completed) && v.note_id == note_id
}

/// Index of the first slot at or after `i` holding a live voice for the
/// note, or the pool's length when there is none.
pub open spec fn active_index_from(s: Seq<Option<Voice>>, note_id: u8, i: int) -> int
    decreases s.len() - i,
        when 0 <= i <= s.len()
{
    if i >= s.len() {
        s.len() as int
    } else if slot_is_active(s[i], note_id) {
        i
    } else {
        active_index_from(s, note_id, i + 1)
    }
}

/// Index of the first empty slot at or after `i`, or the pool's length
/// when there is none.
pub open spec fn first_free_from(s: Seq<Option<Voice>>, i: int) -> int
    decreases s.len() - i,
        when 0 <= i <= s.len()
{
    if i >= s.len() {
        s.len() as int
    } else if s[i] is None {
        i
    } else {
        first_free_from(s, i + 1)
    }
}

/// Well-formed slot table: bounded, every held voice well-formed, and no
/// two live voices for the same note.
pub open spec fn slots_wf(s: Seq<Option<Voice>>) -> bool {
    &&& s.len() <= MAX_VOICES
    &&& forall|i: int| 0 <= i < s.len() ==> ((#[trigger] s[i]) matches Some(v) ==> v.wf())
    &&& forall|i: int, j: int|
        0 <= i < j < s.len() && #[trigger] slot_live(s[i]) && #[trigger] slot_live(s[j])
            ==> s[i]->Some_0.note_id != s[j]->Some_0.note_id
}

/// Slot table after a note-on: unchanged when the note is already live or
/// the pool has no empty slot, else a fresh voice in the first empty slot.
pub open spec fn pool_note_on(
    s: Seq<Option<Voice>>,
    note_id: u8,
    velocity: u64,
    rate: u32,
    params: EnvelopeParams,
) -> Seq<Option<Voice>> {
    if active_index_from(s, note_id, 0) < s.len() {
        s
    } else if first_free_from(s, 0) < s.len() {
        s.update(first_free_from(s, 0), Some(voice_for_note(note_id, velocity, rate, params)))
    } else {
        s
    }
}

/// Slot table after a note-off: the live voice for the note, if any, moves
/// into its release ramp; otherwise nothing changes.
pub open spec fn pool_note_off(
    s: Seq<Option<Voice>>,
    note_id: u8,
    rate: u32,
    params: EnvelopeParams,
) -> Seq<Option<Voice>> {
    let i = active_index_from(s, note_id, 0);
    if i < s.len() {
        let v = s[i]->Some_0;
        s.update(
            i,
            Some(Voice { envelope: released_position(v.envelope, params, rate), ..v }),
        )
    } else {
        s
    }
}

/// Slot table after a pressure change: the live voice for the note, if
/// any, aims its gain smoother at the new pressure.
pub open spec fn pool_poly_pressure(
    s: Seq<Option<Voice>>,
    note_id: u8,
    pressure: u64,
    rate: u32,
) -> Seq<Option<Voice>> {
    let i = active_index_from(s, note_id, 0);
    if i < s.len() {
        let v = s[i]->Some_0;
        s.update(i, Some(Voice { gain: smoother_retarget(v.gain, rate, pressure), ..v }))
    } else {
        s
    }
}

/// Slot table after one event, dispatched on the event's kind.
pub open spec fn pool_apply_event(
    s: Seq<Option<Voice>>,
    event: NoteEvent,
    rate: u32,
    params: EnvelopeParams,
) -> Seq<Option<Voice>> {
    match event {
        NoteEvent::NoteOn { note_id, velocity, .. } => pool_note_on(
            s,
            note_id,
            velocity,
            rate,
            params,
        ),
        NoteEvent::NoteOff { note_id, .. } => pool_note_off(s, note_id, rate, params),
        NoteEvent::PolyPressure { note_id, pressure, .. } => pool_poly_pressure(
            s,
            note_id,
            pressure,
            rate,
        ),
    }
}

/// Slot table with every held voice advanced by one sample.
pub open spec fn pool_advance(
    s: Seq<Option<Voice>>,
    params: EnvelopeParams,
    rate: u32,
) -> Seq<Option<Voice>> {
    s.map_values(
        |slot: Option<Voice>|
            match slot {
                Some(v) => Some(voice_step(v, params, rate)),
                None => None,
            },
    )
}

/// Sum of the samples all held voices contribute this sample.
pub open spec fn pool_sum(s: Seq<Option<Voice>>, params: EnvelopeParams, rate: u32) -> int
    decreases s.len(),
{
    if s.len() == 0 {
        0
    } else {
        pool_sum(s.drop_last(), params, rate) + match s.last() {
            Some(v) => voice_output(v, params, rate),
            None => 0,
        }
    }
}

/// Slot table with every completed voice removed.
pub open spec fn pool_reclaim(s: Seq<Option<Voice>>) -> Seq<Option<Voice>> {
    s.map_values(
        |slot: Option<Voice>|
            match slot {
                Some(v) => if v.envelope is Completed {
                    None
                } else {
                    Some(v)
                },
                None => None,
            },
    )
}

/// Number of live voices in the table.
pub open spec fn count_live(s: Seq<Option<Voice>>) -> int
    decreases s.len(),
{
    if s.len() == 0 {
        0
    } else {
        count_live(s.drop_last()) + if slot_live(s.last()) {
            1int
        } else {
            0int
        }
    }
}

/// When the search for a live voice comes back empty, no slot anywhere at
/// or after `i` holds one for the note.
pub proof fn lemma_no_active_slot(s: Seq<Option<Voice>>, note_id: u8, i: int)
    requires
        0 <= i <= s.len(),
        active_index_from(s, note_id, i) == s.len(),
    ensures
        forall|k: int| i <= k < s.len() ==> !slot_is_active(#[trigger] s[k], note_id),
    decreases s.len() - i,
{
    if i < s.len() {
        lemma_no_active_slot(s, note_id, i + 1);
    }
}

/// The bounded set of sounding voices.
pub struct VoicePool {
    pub slots: Vec<Option<Voice>>,
}

impl VoicePool {
    pub open spec fn wf(self) -> bool {
        slots_wf(self.slots@)
    }

    /// True when a live voice for the note is in the pool.
    pub open spec fn has_active(self, note_id: u8) -> bool {
        active_index_from(self.slots@, note_id, 0) < self.slots@.len()
    }

    /// Builds a pool of `capacity` empty slots; the storage is reserved up
    /// front so steady-state processing never allocates.
    pub fn new(capacity: usize) -> (r: Self)
        requires
            capacity <= MAX_VOICES,
        ensures
            r.slots@.len() == capacity,
            forall|i: int| 0 <= i < capacity ==> r.slots@[i] is None,
            r.wf(),
    {
        let mut slots: Vec<Option<Voice>> = Vec::with_capacity(capacity);
        let mut i: usize = 0;
        while i < capacity
            invariant
                i <= capacity,
                slots@.len() == i,
                forall|k: int| 0 <= k < i ==> slots@[k] is None,
            decreases capacity - i,
        {
            slots.push(None);
            i = i + 1;
        }
        VoicePool { slots }
    }

    /// Number of slots, fixed at construction.
    pub fn capacity(&self) -> (r: usize)
        ensures
            r == self.slots@.len(),
    {
        self.slots.len()
    }

    fn find_active(&self, note_id: u8) -> (r: usize)
        ensures
            r == active_index_from(self.slots@, note_id, 0),
            r <= self.slots@.len(),
            r < self.slots@.len() ==> slot_is_active(self.slots@[r as int], note_id),
    {
        let n = self.slots.len();
        let mut i: usize = 0;
        while i < n
            invariant
                i <= n,
                n == self.slots@.len(),
                active_index_from(self.slots@, note_id, 0) == active_index_from(
                    self.slots@,
                    note_id,
                    i as int,
                ),
            decreases n - i,
        {
            match &self.slots[i] {
                Some(v) => {
                    if v.note_id == note_id && !v.completed() {
                        return i;
                    }
                },
                None => {},
            }
            i = i + 1;
        }
        n
    }

    fn find_free(&self) -> (r: usize)
        ensures
            r == first_free_from(self.slots@, 0),
            r <= self.slots@.len(),
            r < self.slots@.len() ==> self.slots@[r as int] is None,
    {
        let n = self.slots.len();
        let mut i: usize = 0;
        while i < n
            invariant
                i <= n,
                n == self.slots@.len(),
                first_free_from(self.slots@, 0) == first_free_from(self.slots@, i as int),
            decreases n - i,
        {
            if self.slots[i].is_none() {
                return i;
            }
            i = i + 1;
        }
        n
    }

    /// Triggers a voice for the note, unless one is already live (then the
    /// event is ignored) or the pool is full (then the event is dropped).
    pub fn note_on(&mut self, note_id: u8, velocity: u64, rate: u32, params: &EnvelopeParams)
        requires
            old(self).wf(),
            velocity <= AMP_ONE,
        ensures
            final(self).slots@ == pool_note_on(
                old(self).slots@,
                note_id,
                velocity,
                rate,
                *params,
            ),
            final(self).wf(),
            final(self).slots@.len() == old(self).slots@.len(),
            old(self).has_active(note_id) ==> final(self).slots@ == old(self).slots@,
            !old(self).has_active(note_id) && first_free_from(old(self).slots@, 0) == old(
                self,
            ).slots@.len() ==> final(self).slots@ == old(self).slots@,
    {
        let ghost s0 = self.slots@;
        let n = self.slots.len();
        let idx = self.find_active(note_id);
        if idx < n {
            return;
        }
        let free = self.find_free();
        if free < n {
            let v = Voice::new(note_id, velocity, rate, params);
            self.slots[free] = Some(v);
            proof {
                lemma_no_active_slot(s0, note_id, 0);
                let s1 = self.slots@;
                assert forall|i: int, j: int|
                    0 <= i < j < s1.len() && #[trigger] slot_live(s1[i]) && #[trigger] slot_live(
                        s1[j],
                    ) implies s1[i]->Some_0.note_id != s1[j]->Some_0.note_id by {
                    if i != free && j != free {
                        assert(slot_live(s0[i]) && slot_live(s0[j]));
                    } else if i == free {
                        assert(!slot_is_active(s0[j], note_id));
                    } else {
                        assert(!slot_is_active(s0[i], note_id));
                    }
                }
            }
        }
    }

    /// Moves the live voice for the note, if any, into its release ramp;
    /// a no-op for unknown, completed or never-triggered notes.
    pub fn note_off(&mut self, note_id: u8, rate: u32, params: &EnvelopeParams)
        requires
            old(self).wf(),
            params.wf(),
        ensures
            final(self).slots@ == pool_note_off(old(self).slots@, note_id, rate, *params),
            final(self).wf(),
            final(self).slots@.len() == old(self).slots@.len(),
    {
        let ghost s0 = self.slots@;
        let n = self.slots.len();
        let idx = self.find_active(note_id);
        if idx < n {
            let slot = self.slots[idx];
            if let Some(mut v) = slot {
                v.release(params, rate);
                self.slots[idx] = Some(v);
                proof {
                    let s1 = self.slots@;
                    assert forall|i: int, j: int|
                        0 <= i < j < s1.len() && #[trigger] slot_live(s1[i])
                            && #[trigger] slot_live(s1[j]) implies s1[i]->Some_0.note_id
                        != s1[j]->Some_0.note_id by {
                        assert(slot_live(s0[i]) && slot_live(s0[j]));
                        assert(s1[i]->Some_0.note_id == s0[i]->Some_0.note_id);
                        assert(s1[j]->Some_0.note_id == s0[j]->Some_0.note_id);
                    }
                }
            }
        }
    }

    /// Aims the live voice's gain at the new pressure; a no-op for unknown
    /// or completed notes.
    pub fn poly_pressure(&mut self, note_id: u8, pressure: u64, rate: u32)
        requires
            old(self).wf(),
            pressure <= AMP_ONE,
        ensures
            final(self).slots@ == pool_poly_pressure(
                old(self).slots@,
                note_id,
                pressure,
                rate,
            ),
            final(self).wf(),
            final(self).slots@.len() == old(self).slots@.len(),
    {
        let ghost s0 = self.slots@;
        let n = self.slots.len();
        let idx = self.find_active(note_id);
        if idx < n {
            let slot = self.slots[idx];
            if let Some(mut v) = slot {
                v.set_gain_target(rate, pressure);
                self.slots[idx] = Some(v);
                proof {
                    let s1 = self.slots@;
                    assert forall|i: int, j: int|
                        0 <= i < j < s1.len() && #[trigger] slot_live(s1[i])
                            && #[trigger] slot_live(s1[j]) implies s1[i]->Some_0.note_id
                        != s1[j]->Some_0.note_id by {
                        assert(slot_live(s0[i]) && slot_live(s0[j]));
                        assert(s1[i]->Some_0.note_id == s0[i]->Some_0.note_id);
                        assert(s1[j]->Some_0.note_id == s0[j]->Some_0.note_id);
                    }
                }
            }
        }
    }

    /// Applies one note event to the pool.
    pub fn apply_event(&mut self, event: &NoteEvent, rate: u32, params: &EnvelopeParams)
        requires
            old(self).wf(),
            event.wf(),
            params.wf(),
        ensures
            final(self).slots@ == pool_apply_event(old(self).slots@, *event, rate, *params),
            final(self).wf(),
            final(self).slots@.len() == old(self).slots@.len(),
    {
        match *event {
            NoteEvent::NoteOn { note_id, velocity, .. } => self.note_on(
                note_id,
                velocity,
                rate,
                params,
            ),
            NoteEvent::NoteOff { note_id, .. } => self.note_off(note_id, rate, params),
            NoteEvent::PolyPressure { note_id, pressure, .. } => self.poly_pressure(
                note_id,
                pressure,
                rate,
            ),
        }
    }

    /// Produces one sample from every held voice, advancing each by one
    /// sample, and sums them by plain addition — no normalization by voice
    /// count, matching additive synthesis.
    pub fn advance_and_sum(&mut self, params: &EnvelopeParams, rate: u32) -> (r: i64)
        requires
            old(self).wf(),
            params.wf(),
            rate >= 1,
        ensures
            r == pool_sum(old(self).slots@, *params, rate),
            final(self).slots@ == pool_advance(old(self).slots@, *params, rate),
            final(self).wf(),
            final(self).slots@.len() == old(self).slots@.len(),
            -(old(self).slots@.len() * AMP_ONE) <= r <= old(self).slots@.len() * AMP_ONE,
    {
        let ghost s0 = self.slots@;
        let n = self.slots.len();
        let mut sum: i64 = 0;
        let mut i: usize = 0;
        while i < n
            invariant
                i <= n,
                n == s0.len(),
                n <= MAX_VOICES,
                self.slots@.len() == n,
                params.wf(),
                rate >= 1,
                slots_wf(s0),
                forall|k: int| i <= k < n ==> self.slots@[k] == s0[k],
                forall|k: int|
                    0 <= k < i ==> self.slots@[k] == pool_advance(s0, *params, rate)[k],
                sum == pool_sum(s0.take(i as int), *params, rate),
                -(i * AMP_ONE) <= sum <= i * AMP_ONE,
            decreases n - i,
        {
            proof {
                lemma_pool_sum_take_step(s0, i as int, *params, rate);
            }
            let slot = self.slots[i];
            match slot {
                Some(mut v) => {
                    let out = v.next_sample(params, rate);
                    self.slots[i] = Some(v);
                    sum = sum + out;
                },
                None => {},
            }
            i = i + 1;
        }
        proof {
            assert(s0.take(n as int) =~= s0);
            assert(self.slots@ =~= pool_advance(s0, *params, rate));
            lemma_pool_advance_wf(s0, *params, rate);
        }
        sum
    }

    /// Removes every voice whose envelope has completed, freeing its slot.
    pub fn reclaim_completed(&mut self)
        requires
            old(self).wf(),
        ensures
            final(self).slots@ == pool_reclaim(old(self).slots@),
            final(self).wf(),
            final(self).slots@.len() == old(self).slots@.len(),
    {
        let ghost s0 = self.slots@;
        let n = self.slots.len();
        let mut i: usize = 0;
        while i < n
            invariant
                i <= n,
                n == s0.len(),
                self.slots@.len() == n,
                forall|k: int| i <= k < n ==> self.slots@[k] == s0[k],
                forall|k: int| 0 <= k < i ==> self.slots@[k] == pool_reclaim(s0)[k],
            decreases n - i,
        {
            let slot = self.slots[i];
            match slot {
                Some(v) => {
                    if v.completed() {
                        self.slots[i] = None;
                    }
                },
                None => {},
            }
            i = i + 1;
        }
        proof {
            assert(self.slots@ =~= pool_reclaim(s0));
            assert forall|i2: int, j: int|
                0 <= i2 < j < self.slots@.len() && #[trigger] slot_live(self.slots@[i2])
                    && #[trigger] slot_live(self.slots@[j]) implies self.slots@[i2]->Some_0.note_id
                != self.slots@[j]->Some_0.note_id by {
                assert(slot_live(s0[i2]) && slot_live(s0[j]));
            }
        }
    }

    /// Empties the pool: every slot is freed and every phase with it.
    pub fn clear(&mut self)
        requires
            old(self).wf(),
        ensures
            final(self).slots@.len() == old(self).slots@.len(),
            forall|i: int| 0 <= i < final(self).slots@.len() ==> final(self).slots@[i] is None,
            final(self).wf(),
    {
        let n = self.slots.len();
        let mut i: usize = 0;
        while i < n
            invariant
                i <= n,
                self.slots@.len() == n,
                n <= MAX_VOICES,
                forall|k: int| 0 <= k < i ==> self.slots@[k] is None,
            decreases n - i,
        {
            self.slots[i] = None;
            i = i + 1;
        }
    }

    /// Number of live voices now sounding.
    pub fn active_voices(&self) -> (r: usize)
        ensures
            r == count_live(self.slots@),
    {
        let n = self.slots.len();
        let mut count: usize = 0;
        let mut i: usize = 0;
        while i < n
            invariant
                i <= n,
                n == self.slots@.len(),
                count == count_live(self.slots@.take(i as int)),
                count <= i,
            decreases n - i,
        {
            proof {
                lemma_count_live_take_step(self.slots@, i as int);
            }
            match &self.slots[i] {
                Some(v) => {
                    if !v.completed() {
                        count = count + 1;
                    }
                },
                None => {},
            }
            i = i + 1;
        }
        proof {
            assert(self.slots@.take(n as int) =~= self.slots@);
        }
        count
    }
}

/// One more slot extends the pool's sum by that slot's contribution.
proof fn lemma_pool_sum_take_step(
    s: Seq<Option<Voice>>,
    i: int,
    params: EnvelopeParams,
    rate: u32,
)
    requires
        0 <= i < s.len(),
    ensures
        pool_sum(s.take(i + 1), params, rate) == pool_sum(s.take(i), params, rate) + match s[i] {
            Some(v) => voice_output(v, params, rate),
            None => 0,
        },
{
    let t = s.take(i + 1);
    assert(t.drop_last() =~= s.take(i));
    assert(t.last() == s[i]);
}

/// One more slot extends the live count by that slot's liveness.
proof fn lemma_count_live_take_step(s: Seq<Option<Voice>>, i: int)
    requires
        0 <= i < s.len(),
    ensures
        count_live(s.take(i + 1)) == count_live(s.take(i)) + if slot_live(s[i]) {
            1int
        } else {
            0int
        },
{
    let t = s.take(i + 1);
    assert(t.drop_last() =~= s.take(i));
    assert(t.last() == s[i]);
}

/// Advancing every voice by one sample preserves well-formedness: each
/// stepped voice is well-formed, and a live stepped voice was live before,
/// so note ids stay unique.
proof fn lemma_pool_advance_wf(s: Seq<Option<Voice>>, params: EnvelopeParams, rate: u32)
    requires
        slots_wf(s),
        params.wf(),
    ensures
        slots_wf(pool_advance(s, params, rate)),
{
    let s1 = pool_advance(s, params, rate);
    assert forall|i: int| 0 <= i < s1.len() implies ((#[trigger] s1[i]) matches Some(v)
        ==> v.wf()) by {
        match s[i] {
            Some(v) => {
                crate::units::lemma_samples_of_ms_bound(params.attack_ms, rate);
                crate::units::lemma_samples_of_ms_bound(params.hold_ms, rate);
                crate::units::lemma_samples_of_ms_bound(params.decay_ms, rate);
                crate::units::lemma_samples_of_ms_bound(params.release_ms, rate);
                crate::oscillator::lemma_phase_stays_in_range(
                    v.osc.phase,
                    crate::oscillator::phase_delta(v.freq_millihz, rate) as u64,
                );
                assert(voice_step(v, params, rate).wf());
            },
            None => {},
        }
    }
    assert forall|i: int, j: int|
        0 <= i < j < s1.len() && #[trigger] slot_live(s1[i]) && #[trigger] slot_live(s1[j])
            implies s1[i]->Some_0.note_id != s1[j]->Some_0.note_id by {
        assert(slot_live(s[i]) && slot_live(s[j]));
    }
}

/// Law: a full pool drops a note-on for a new note: nothing is allocated
/// and nothing changes, so the live voice count stays where it was.
pub proof fn lemma_full_pool_drops_note_on(
    s: Seq<Option<Voice>>,
    note_id: u8,
    velocity: u64,
    rate: u32,
    params: EnvelopeParams,
)
    requires
        active_index_from(s, note_id, 0) == s.len(),
        first_free_from(s, 0) == s.len(),
    ensures
        pool_note_on(s, note_id, velocity, rate, params) == s,
        count_live(pool_note_on(s, note_id, velocity, rate, params)) == count_live(s),
{
}

/// Law: reclamation never changes what the pool sounds like — the summed
/// sample over the reclaimed table equals the one over the original,
/// because every removed voice contributed exact silence.
pub proof fn lemma_reclaim_preserves_sum(
    s: Seq<Option<Voice>>,
    params: EnvelopeParams,
    rate: u32,
)
    ensures
        pool_sum(pool_reclaim(s), params, rate) == pool_sum(s, params, rate),
    decreases s.len(),
{
    if s.len() > 0 {
        let t = pool_reclaim(s);
        assert(t.drop_last() =~= pool_reclaim(s.drop_last()));
        lemma_reclaim_preserves_sum(s.drop_last(), params, rate);
        match s.last() {
            Some(v) => {
                if v.envelope is Completed {
                    crate::voice::lemma_completed_voice_is_silent(v, params, rate);
                }
            },
            None => {},
        }
    }
}

/// Law: a completed voice's slot is freed by reclamation, and such a voice
/// contributed exact silence to the sum even before it.
pub proof fn lemma_reclaim_removes_completed(
    s: Seq<Option<Voice>>,
    params: EnvelopeParams,
    rate: u32,
)
    ensures
        forall|i: int|
            0 <= i < s.len() && ((#[trigger] s[i]) matches Some(v) && v.envelope is Completed)
                ==> pool_reclaim(s)[i] is None,
        forall|i: int|
            0 <= i < s.len() && ((#[trigger] s[i]) matches Some(v) && v.envelope is Completed)
                ==> voice_output(s[i]->Some_0, params, rate) == 0,
{
    assert forall|i: int|
        0 <= i < s.len() && ((#[trigger] s[i]) matches Some(v) && v.envelope is Completed)
            implies voice_output(s[i]->Some_0, params, rate) == 0 by {
        crate::voice::lemma_completed_voice_is_silent(s[i]->Some_0, params, rate);
    }
}

} // verus!
