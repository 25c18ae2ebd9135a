//! Timed note events: the input stream the host hands the core once per
//! audio block.
//!
//! Timing is the sample offset within the current block, and is
//! non-decreasing along the stream. Velocity and pressure are Q16
//! amplitude fractions in `[0, AMP_ONE]`; the clamping constructors keep
//! out-of-range values from ever entering the stream.

use crate::units::AMP_ONE;
use vstd::prelude::*;

verus! {

/// One note event, timed relative to the start of the current block.
#[derive(Clone, Copy, PartialEq, Eq, Structural, Debug)]
pub enum NoteEvent {
    NoteOn { note_id: u8, velocity: u64, timing: u32 },
    NoteOff { note_id: u8, timing: u32 },
    PolyPressure { note_id: u8, pressure: u64, timing: u32 },
}

impl NoteEvent {
    /// Sample offset within the block at which the event takes effect.
    pub open spec fn spec_timing(&self) -> u32 {
        match *self {
            NoteEvent::NoteOn { timing, .. } => timing,
            NoteEvent::NoteOff { timing, .. } => timing,
            NoteEvent::PolyPressure { timing, .. } => timing,
        }
    }

    /// Velocity and pressure stay within the amplitude domain.
    pub open spec fn wf(self) -> bool {
        match self {
            NoteEvent::NoteOn { velocity, .. } => velocity <= AMP_ONE,
            NoteEvent::NoteOff { .. } => true,
            NoteEvent::PolyPressure { pressure, .. } => pressure <= AMP_ONE,
        }
    }

    /// Sample offset within the block at which the event takes effect.
    #[verifier::when_used_as_spec(spec_timing)]
    pub fn timing(&self) -> (r: u32)
        ensures
            r == self.spec_timing(),
    {
        match *self {
            NoteEvent::NoteOn { timing, .. } => timing,
            NoteEvent::NoteOff { timing, .. } => timing,
            NoteEvent::PolyPressure { timing, .. } => timing,
        }
    }

    /// Builds a note-on event, clamping the velocity into `[0, AMP_ONE]`.
    pub fn note_on(note_id: u8, velocity: u64, timing: u32) -> (r: Self)
        ensures
            r == (NoteEvent::NoteOn {
                note_id,
                velocity: if velocity <= AMP_ONE {
                    velocity
                } else {
                    AMP_ONE
                },
                timing,
            }),
            r.wf(),
    {
        let v: u64 = if velocity > AMP_ONE {
            AMP_ONE
        } else {
            velocity
        };
        NoteEvent::NoteOn { note_id, velocity: v, timing }
    }

    /// Builds a note-off event.
    pub fn note_off(note_id: u8, timing: u32) -> (r: Self)
        ensures
            r == (NoteEvent::NoteOff { note_id, timing }),
            r.wf(),
    {
        NoteEvent::NoteOff { note_id, timing }
    }

    /// Builds a polyphonic pressure event, clamping the pressure into
    /// `[0, AMP_ONE]`.
    pub fn poly_pressure(note_id: u8, pressure: u64, timing: u32) -> (r: Self)
        ensures
            r == (NoteEvent::PolyPressure {
                note_id,
                pressure: if pressure <= AMP_ONE {
                    pressure
                } else {
                    AMP_ONE
                },
                timing,
            }),
            r.wf(),
    {
        let p: u64 = if pressure > AMP_ONE {
            AMP_ONE
        } else {
            pressure
        };
        NoteEvent::PolyPressure { note_id, pressure: p, timing }
    }
}

/// The stream is sorted: timings never decrease along it.
pub open spec fn events_sorted(events: Seq<NoteEvent>) -> bool {
    forall|i: int, j: int|
        0 <= i <= j < events.len() ==> #[trigger] events[i].spec_timing()
            <= #[trigger] events[j].spec_timing()
}

/// Every event of the stream is well-formed.
pub open spec fn events_wf(events: Seq<NoteEvent>) -> bool {
    forall|i: int| 0 <= i < events.len() ==> (#[trigger] events[i]).wf()
}

} // verus!
