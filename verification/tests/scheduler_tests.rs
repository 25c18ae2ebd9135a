use fm_synth::event::NoteEvent;
use fm_synth::scheduler::{EventScheduler, SchedulerStep};

#[test]
fn block_subdivision_applies_events_at_their_sample() {
    // Events at timings [3, 3, 10] within a 16-sample block.
    let events = vec![
        NoteEvent::note_on(60, 65536, 3),
        NoteEvent::note_on(61, 65536, 3),
        NoteEvent::note_on(62, 65536, 10),
    ];
    let mut sched = EventScheduler::new();
    // Audio for [0, 3) with no preceding event.
    assert_eq!(
        sched.step(&events, 16),
        SchedulerStep::Produce { start: 0, end: 3 }
    );
    // Both events at timing 3, in arrival order, before any audio at 3.
    assert_eq!(
        sched.step(&events, 16),
        SchedulerStep::Apply { event: events[0] }
    );
    assert_eq!(
        sched.step(&events, 16),
        SchedulerStep::Apply { event: events[1] }
    );
    // Audio for [3, 10), then the event at 10, then [10, 16).
    assert_eq!(
        sched.step(&events, 16),
        SchedulerStep::Produce { start: 3, end: 10 }
    );
    assert_eq!(
        sched.step(&events, 16),
        SchedulerStep::Apply { event: events[2] }
    );
    assert_eq!(
        sched.step(&events, 16),
        SchedulerStep::Produce { start: 10, end: 16 }
    );
    assert_eq!(sched.step(&events, 16), SchedulerStep::BlockDone);
}

#[test]
fn event_beyond_the_block_is_deferred() {
    let events = vec![NoteEvent::note_off(60, 20)];
    let mut sched = EventScheduler::new();
    assert_eq!(
        sched.step(&events, 16),
        SchedulerStep::Produce { start: 0, end: 16 }
    );
    assert_eq!(sched.step(&events, 16), SchedulerStep::BlockDone);
    // The event was never consumed.
    assert_eq!(sched.next_event, 0);
}

#[test]
fn event_at_the_block_edge_is_deferred() {
    let events = vec![NoteEvent::note_off(60, 16)];
    let mut sched = EventScheduler::new();
    assert_eq!(
        sched.step(&events, 16),
        SchedulerStep::Produce { start: 0, end: 16 }
    );
    assert_eq!(sched.step(&events, 16), SchedulerStep::BlockDone);
    assert_eq!(sched.next_event, 0);
}

#[test]
fn empty_stream_produces_the_whole_block() {
    let events: Vec<NoteEvent> = Vec::new();
    let mut sched = EventScheduler::new();
    assert_eq!(
        sched.step(&events, 8),
        SchedulerStep::Produce { start: 0, end: 8 }
    );
    assert_eq!(sched.step(&events, 8), SchedulerStep::BlockDone);
}

#[test]
fn event_at_sample_zero_comes_before_any_audio() {
    let events = vec![NoteEvent::note_on(60, 65536, 0)];
    let mut sched = EventScheduler::new();
    assert_eq!(
        sched.step(&events, 4),
        SchedulerStep::Apply { event: events[0] }
    );
    assert_eq!(
        sched.step(&events, 4),
        SchedulerStep::Produce { start: 0, end: 4 }
    );
    assert_eq!(sched.step(&events, 4), SchedulerStep::BlockDone);
}
