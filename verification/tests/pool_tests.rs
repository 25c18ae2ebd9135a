use fm_synth::envelope::{EnvelopeParams, EnvelopePosition};
use fm_synth::pool::VoicePool;

#[test]
fn full_pool_drops_note_on() {
    let params = EnvelopeParams::new(10, 0, 10, 32768, 10);
    let mut pool = VoicePool::new(4);
    for n in 0..5u8 {
        pool.note_on(60 + n, 65536, 44100, &params);
    }
    // The fifth distinct note-on found the pool full and was dropped.
    assert_eq!(pool.active_voices(), 4);
    assert_eq!(pool.capacity(), 4);
    for slot in pool.slots.iter() {
        let v = slot.unwrap();
        assert!(v.note_id != 64);
    }
}

#[test]
fn note_on_for_live_note_is_ignored() {
    let params = EnvelopeParams::new(10, 0, 10, 32768, 10);
    let mut pool = VoicePool::new(4);
    pool.note_on(60, 65536, 44100, &params);
    pool.note_on(60, 30000, 44100, &params);
    assert_eq!(pool.active_voices(), 1);
    let v = pool.slots[0].unwrap();
    // The first trigger's velocity stands; there is no re-triggering.
    assert_eq!(v.gain.target, 65536);
}

#[test]
fn completed_voice_reclaimed_and_silent() {
    let params = EnvelopeParams::new(0, 0, 0, 65536, 0);
    let mut pool = VoicePool::new(4);
    pool.note_on(69, 65536, 44100, &params);
    pool.note_off(69, 44100, &params);
    // With a zero release the voice completes at the next sample.
    pool.advance_and_sum(&params, 44100);
    let v = pool.slots[0].unwrap();
    assert_eq!(v.envelope, EnvelopePosition::Completed);
    assert_eq!(pool.active_voices(), 0);
    // Completed but not yet reclaimed: it contributes exact silence.
    let s = pool.advance_and_sum(&params, 44100);
    assert_eq!(s, 0);
    pool.reclaim_completed();
    assert!(pool.slots[0].is_none());
    // The freed slot lets the pool reach its full polyphony again.
    for n in 0..4u8 {
        pool.note_on(n, 65536, 44100, &params);
    }
    assert_eq!(pool.active_voices(), 4);
}

#[test]
fn note_off_for_unknown_note_is_no_op() {
    let params = EnvelopeParams::new(10, 0, 10, 32768, 10);
    let mut pool = VoicePool::new(2);
    pool.note_on(60, 65536, 44100, &params);
    let before = pool.slots[0].unwrap();
    pool.note_off(61, 44100, &params);
    assert_eq!(pool.slots[0].unwrap(), before);
    assert_eq!(pool.active_voices(), 1);
}

#[test]
fn pressure_retargets_gain_of_live_voice_only() {
    let params = EnvelopeParams::new(10, 0, 10, 32768, 10);
    let mut pool = VoicePool::new(2);
    pool.note_on(60, 65536, 1000, &params);
    pool.poly_pressure(60, 32768, 1000);
    let v = pool.slots[0].unwrap();
    assert_eq!(v.gain.target, 32768);
    // Pressure for an unknown note changes nothing.
    pool.poly_pressure(99, 11111, 1000);
    assert_eq!(pool.slots[0].unwrap(), v);
}

#[test]
fn released_note_keeps_sounding_until_completed() {
    // A note-off is not a cancellation: the voice decays through its
    // release ramp and stays live meanwhile.
    let params = EnvelopeParams::new(0, 0, 0, 65536, 10);
    let rate = 1000;
    let mut pool = VoicePool::new(2);
    pool.note_on(60, 65536, rate, &params);
    pool.note_off(60, rate, &params);
    assert_eq!(pool.active_voices(), 1);
    for _ in 0..9 {
        pool.advance_and_sum(&params, rate);
        assert_eq!(pool.active_voices(), 1);
    }
    pool.advance_and_sum(&params, rate);
    assert_eq!(pool.active_voices(), 0);
}

#[test]
fn triggered_voice_has_the_note_frequency() {
    let params = EnvelopeParams::new(0, 0, 0, 65536, 0);
    let mut pool = VoicePool::new(2);
    pool.note_on(69, 65536, 44100, &params);
    let v = pool.slots[0].unwrap();
    assert_eq!(v.freq_millihz, 440000);
    assert_eq!(v.osc.phase, 0);
    assert_eq!(v.note_id, 69);
}
