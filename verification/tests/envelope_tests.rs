use fm_synth::envelope::{EnvelopeParams, EnvelopePosition};

#[test]
fn release_should() {
    let envelope = EnvelopeParams::new(0, 0, 0, 0, 0);
    let _ = envelope;
}

#[test]
fn attack_then_decay_shape() {
    // 10 ms attack and decay at 1000 Hz: ten samples each.
    let params = EnvelopeParams::new(10, 0, 10, 32768, 100);
    let rate = 1000;
    let mut pos = EnvelopePosition::initial(&params, rate);
    let mut last: u64 = 0;
    for i in 0..10u64 {
        let a = pos.next_sample(&params, rate);
        assert_eq!(a, 65536 * i / 10);
        assert!(a >= last);
        last = a;
    }
    // The first decay sample is exactly full scale.
    let boundary = pos.next_sample(&params, rate);
    assert_eq!(boundary, 65536);
    last = boundary;
    for _ in 0..9 {
        let a = pos.next_sample(&params, rate);
        assert!(a <= last);
        last = a;
    }
    // The decay lands exactly on the sustain level and stays there.
    let s = pos.next_sample(&params, rate);
    assert_eq!(s, 32768);
    assert_eq!(pos, EnvelopePosition::Sustain);
}

#[test]
fn release_ramps_from_captured_amplitude() {
    let params = EnvelopeParams::new(10, 0, 10, 20000, 10);
    let rate = 1000;
    let mut pos = EnvelopePosition::initial(&params, rate);
    for _ in 0..5 {
        pos.next_sample(&params, rate);
    }
    // Halfway through the attack the amplitude is exactly half scale.
    let here = pos.amplitude(&params, rate);
    assert_eq!(here, 32768);
    pos.release(&params, rate);
    // The ramp starts at the captured amplitude, not at full scale and not
    // at the sustain level.
    assert_eq!(
        pos,
        EnvelopePosition::Release { progress: 0, level_at_release: 32768 }
    );
    let first = pos.next_sample(&params, rate);
    assert_eq!(first, 32768);
    let mut last = first;
    loop {
        if matches!(pos, EnvelopePosition::Completed) {
            break;
        }
        let a = pos.next_sample(&params, rate);
        assert!(a <= last);
        last = a;
    }
    assert_eq!(pos.amplitude(&params, rate), 0);
}

#[test]
fn releasing_twice_keeps_the_first_ramp() {
    let params = EnvelopeParams::new(10, 0, 10, 20000, 10);
    let rate = 1000;
    let mut pos = EnvelopePosition::initial(&params, rate);
    for _ in 0..5 {
        pos.next_sample(&params, rate);
    }
    pos.release(&params, rate);
    let snapshot = pos;
    pos.release(&params, rate);
    assert_eq!(pos, snapshot);
}

#[test]
fn hold_stage_holds_full_amplitude() {
    let params = EnvelopeParams::new(0, 5, 10, 32768, 10);
    let rate = 1000;
    let mut pos = EnvelopePosition::initial(&params, rate);
    assert_eq!(pos, EnvelopePosition::Hold { remaining: 5 });
    for _ in 0..5 {
        assert_eq!(pos.next_sample(&params, rate), 65536);
    }
    assert_eq!(pos, EnvelopePosition::Decay { progress: 0 });
}

#[test]
fn all_zero_stages_open_fully() {
    let params = EnvelopeParams::new(0, 0, 0, 65536, 0);
    let pos = EnvelopePosition::initial(&params, 44100);
    assert_eq!(pos, EnvelopePosition::Sustain);
    assert_eq!(pos.amplitude(&params, 44100), 65536);
}

#[test]
fn zero_release_completes_within_one_sample() {
    let params = EnvelopeParams::new(0, 0, 0, 65536, 0);
    let rate = 44100;
    let mut pos = EnvelopePosition::initial(&params, rate);
    pos.release(&params, rate);
    let a = pos.next_sample(&params, rate);
    assert_eq!(a, 0);
    assert_eq!(pos, EnvelopePosition::Completed);
}

#[test]
fn sustain_level_clamped_at_unity() {
    let params = EnvelopeParams::new(1, 1, 1, 1_000_000, 1);
    assert_eq!(params.sustain_level, 65536);
}

#[test]
fn stage_too_short_for_one_sample_is_skipped() {
    // 1 ms of attack at 900 Hz rounds to zero samples, so the envelope
    // starts directly in the decay ramp.
    let params = EnvelopeParams::new(1, 0, 1000, 32768, 10);
    let pos = EnvelopePosition::initial(&params, 900);
    assert_eq!(pos, EnvelopePosition::Decay { progress: 0 });
}
