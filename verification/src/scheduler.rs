//! The event scheduler: walks one audio block and interleaves event
//! application with audio production so that every event takes effect at
//! the exact sample it is timestamped for.
//!
//! At each step, an event due at or before the cursor is applied before
//! any further audio — events sharing a timestamp are applied back to back
//! in stream order. Otherwise audio runs from the cursor up to the next
//! event's timing (or the end of the block), and the emitted sub-blocks
//! cover `[0, block_len)` exactly once, in order, with no gaps or
//! overlaps. An event timestamped at or past the block's end is left for
//! the following block, never consumed early.

use crate::event::NoteEvent;
use vstd::prelude::*;

verus! {

/// What the caller must do next with the block.
#[derive(Clone, Copy, PartialEq, Eq, Structural, Debug)]
pub enum SchedulerStep {
    /// Apply this event now, before producing any further audio.
    Apply { event: NoteEvent },
    /// Produce audio for the samples `start..end`.
    Produce { start: u32, end: u32 },
    /// The block is fully covered.
    BlockDone,
}

/// Last sample (exclusive) of the sub-block that may be produced before
/// the next event is due: the next event's timing, capped at the block's
/// end.
pub open spec fn produce_end(events: Seq<NoteEvent>, next: int, block_len: u32) -> int {
    if next < events.len() && events[next].spec_timing() < block_len {
        events[next].spec_timing() as int
    } else {
        block_len as int
    }
}

/// The scheduler's cursor into one block and one event stream.
#[derive(Clone, Copy, PartialEq, Eq, Structural, Debug)]
pub struct EventScheduler {
    /// First sample of the block not yet covered by produced audio.
    pub cursor: u32,
    /// Index of the next event not yet applied.
    pub next_event: usize,
}

impl EventScheduler {
    pub open spec fn wf(self, events: Seq<NoteEvent>, block_len: u32) -> bool {
        &&& self.cursor <= block_len
        &&& self.next_event <= events.len()
    }

    /// A fresh scheduler stands at the start of the block and of the
    /// stream.
    pub fn new() -> (r: Self)
        ensures
            r == (EventScheduler { cursor: 0, next_event: 0 }),
    {
        EventScheduler { cursor: 0, next_event: 0 }
    }

    /// Decides the next action for the block: apply a due event, produce
    /// the audio up to the next due event, or report the block done.
    pub fn step(&mut self, events: &Vec<NoteEvent>, block_len: u32) -> (r: SchedulerStep)
        requires
            old(self).wf(events@, block_len),
        ensures
            final(self).wf(events@, block_len),
            old(self).cursor == block_len ==> r == SchedulerStep::BlockDone && *final(self)
                == *old(self),
            old(self).cursor < block_len && old(self).next_event < events@.len()
                && events@[old(self).next_event as int].spec_timing() <= old(self).cursor ==> {
                &&& r == (SchedulerStep::Apply { event: events@[old(self).next_event as int] })
                &&& final(self).cursor == old(self).cursor
                &&& final(self).next_event == old(self).next_event + 1
            },
            old(self).cursor < block_len && !(old(self).next_event < events@.len()
                && events@[old(self).next_event as int].spec_timing() <= old(self).cursor) ==> {
                &&& r == (SchedulerStep::Produce {
                    start: old(self).cursor,
                    end: produce_end(events@, old(self).next_event as int, block_len) as u32,
                })
                &&& final(self).cursor == produce_end(
                    events@,
                    old(self).next_event as int,
                    block_len,
                )
                &&& final(self).next_event == old(self).next_event
                &&& old(self).cursor < final(self).cursor
                &&& (final(self).next_event == events@.len()
                    || events@[final(self).next_event as int].spec_timing() >= final(self).cursor)
            },
    {
        if self.cursor >= block_len {
            return SchedulerStep::BlockDone;
        }
        if self.next_event < events.len() {
            let ev = events[self.next_event];
            if ev.timing() <= self.cursor {
                self.next_event = self.next_event + 1;
                return SchedulerStep::Apply { event: ev };
            }
            let end: u32 = if ev.timing() < block_len {
                ev.timing()
            } else {
                block_len
            };
            let start = self.cursor;
            self.cursor = end;
            return SchedulerStep::Produce { start, end };
        }
        let start = self.cursor;
        self.cursor = block_len;
        SchedulerStep::Produce { start, end: block_len }
    }
}

} // verus!
