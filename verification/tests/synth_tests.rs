use fm_synth::envelope::{EnvelopeParams, EnvelopePosition};
use fm_synth::event::NoteEvent;
use fm_synth::synth::{BlockParams, Synth};

#[test]
fn instant_envelope_opens_at_once() {
    // Note 69 at full velocity with every stage instant: the voice sounds
    // at 440 Hz with the envelope fully open from the first sample.
    let env = EnvelopeParams::new(0, 0, 0, 65536, 0);
    let params = BlockParams::new(env, 65536);
    let mut synth = Synth::new(44100, 8);
    let events = vec![NoteEvent::note_on(69, 65536, 0)];
    let mut out: Vec<i64> = Vec::new();
    synth.process_block(&events, 16, &params, &mut out);
    assert_eq!(out.len(), 16);
    let voice = synth.pool.slots[0].unwrap();
    assert_eq!(voice.note_id, 69);
    assert_eq!(voice.freq_millihz, 440000);
    assert_eq!(voice.envelope, EnvelopePosition::Sustain);
    assert_eq!(voice.envelope.amplitude(&env, 44100), 65536);
}

#[test]
fn immediate_note_off_completes_within_one_sample() {
    let env = EnvelopeParams::new(0, 0, 0, 65536, 0);
    let params = BlockParams::new(env, 65536);
    let mut synth = Synth::new(44100, 8);
    let events = vec![
        NoteEvent::note_on(69, 65536, 0),
        NoteEvent::note_off(69, 0),
    ];
    let mut out: Vec<i64> = Vec::new();
    synth.process_block(&events, 4, &params, &mut out);
    let voice = synth.pool.slots[0].unwrap();
    assert_eq!(voice.envelope, EnvelopePosition::Completed);
    assert_eq!(synth.pool.active_voices(), 0);
    // The next block's reclamation frees the slot.
    let none: Vec<NoteEvent> = Vec::new();
    synth.process_block(&none, 4, &params, &mut out);
    assert!(synth.pool.slots[0].is_none());
}

#[test]
fn output_is_replaced_and_sized_to_the_block() {
    let env = EnvelopeParams::new(0, 0, 0, 65536, 0);
    let params = BlockParams::new(env, 65536);
    let mut synth = Synth::new(44100, 4);
    let events: Vec<NoteEvent> = Vec::new();
    let mut out: Vec<i64> = vec![7, 7, 7, 7, 7, 7, 7, 7, 7];
    synth.process_block(&events, 5, &params, &mut out);
    assert_eq!(out.len(), 5);
    for s in out.iter() {
        assert_eq!(*s, 0);
    }
}

#[test]
fn zero_master_gain_silences_the_block() {
    let env = EnvelopeParams::new(0, 0, 0, 65536, 0);
    let params = BlockParams::new(env, 0);
    let mut synth = Synth::new(44100, 8);
    let events = vec![NoteEvent::note_on(69, 65536, 0)];
    let mut out: Vec<i64> = Vec::new();
    synth.process_block(&events, 32, &params, &mut out);
    for s in out.iter() {
        assert_eq!(*s, 0);
    }
    assert_eq!(synth.pool.active_voices(), 1);
}

#[test]
fn event_past_the_block_is_left_for_later() {
    let env = EnvelopeParams::new(0, 0, 0, 65536, 0);
    let params = BlockParams::new(env, 65536);
    let mut synth = Synth::new(44100, 8);
    let events = vec![NoteEvent::note_on(69, 65536, 20)];
    let mut out: Vec<i64> = Vec::new();
    synth.process_block(&events, 16, &params, &mut out);
    assert_eq!(synth.pool.active_voices(), 0);
}

#[test]
fn note_on_takes_effect_at_its_sample() {
    // A note arriving mid-block leaves the earlier samples silent.
    let env = EnvelopeParams::new(0, 0, 0, 65536, 0);
    let params = BlockParams::new(env, 65536);
    let mut synth = Synth::new(1000, 8);
    let events = vec![NoteEvent::note_on(69, 65536, 8)];
    let mut out: Vec<i64> = Vec::new();
    synth.process_block(&events, 16, &params, &mut out);
    for i in 0..8 {
        assert_eq!(out[i], 0);
    }
    assert_eq!(synth.pool.active_voices(), 1);
    let voice = synth.pool.slots[0].unwrap();
    // Eight samples have elapsed for the voice since its trigger.
    assert!(voice.osc.phase > 0);
}

#[test]
fn reset_clears_all_voices_and_phases() {
    let env = EnvelopeParams::new(0, 0, 0, 65536, 0);
    let params = BlockParams::new(env, 65536);
    let mut synth = Synth::new(44100, 8);
    let events = vec![
        NoteEvent::note_on(60, 65536, 0),
        NoteEvent::note_on(64, 65536, 0),
    ];
    let mut out: Vec<i64> = Vec::new();
    synth.process_block(&events, 8, &params, &mut out);
    assert_eq!(synth.pool.active_voices(), 2);
    synth.reset();
    assert_eq!(synth.pool.active_voices(), 0);
    for slot in synth.pool.slots.iter() {
        assert!(slot.is_none());
    }
}

#[test]
fn sample_rate_can_change_between_blocks() {
    let mut synth = Synth::new(44100, 8);
    synth.set_sample_rate(48000);
    assert_eq!(synth.sample_rate, 48000);
}

#[test]
fn master_gain_clamped_at_unity() {
    let env = EnvelopeParams::new(0, 0, 0, 65536, 0);
    let params = BlockParams::new(env, 1_000_000);
    assert_eq!(params.master_gain, 65536);
}

#[test]
fn velocity_and_pressure_clamped_by_event_constructors() {
    let on = NoteEvent::note_on(60, 1_000_000, 0);
    assert_eq!(
        on,
        NoteEvent::NoteOn { note_id: 60, velocity: 65536, timing: 0 }
    );
    let pp = NoteEvent::poly_pressure(60, 1_000_000, 3);
    assert_eq!(
        pp,
        NoteEvent::PolyPressure { note_id: 60, pressure: 65536, timing: 3 }
    );
}

#[test]
fn pressure_event_retargets_gain_mid_block() {
    let env = EnvelopeParams::new(0, 0, 0, 65536, 0);
    let params = BlockParams::new(env, 65536);
    let mut synth = Synth::new(1000, 8);
    let events = vec![
        NoteEvent::note_on(69, 65536, 0),
        NoteEvent::poly_pressure(69, 32768, 4),
    ];
    let mut out: Vec<i64> = Vec::new();
    synth.process_block(&events, 8, &params, &mut out);
    let voice = synth.pool.slots[0].unwrap();
    assert_eq!(voice.gain.target, 32768);
}
