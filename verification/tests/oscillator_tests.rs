use fm_synth::note::midi_note_to_freq_millihz;
use fm_synth::oscillator::Oscillator;
use fm_synth::units::PHASE_ONE;

#[test]
fn waveform_landmarks() {
    let mut o = Oscillator::new();
    assert_eq!(o.sample(), 0);
    o.advance(PHASE_ONE / 4);
    assert_eq!(o.sample(), 65536);
    o.advance(PHASE_ONE / 4);
    assert_eq!(o.sample(), 0);
    o.advance(PHASE_ONE / 4);
    assert_eq!(o.sample(), -65536);
    o.advance(PHASE_ONE / 4);
    assert_eq!(o.sample(), 0);
}

#[test]
fn phase_stays_in_range_at_any_frequency() {
    let mut o = Oscillator::new();
    for _ in 0..1000 {
        o.next_sample(68719476736, 8000);
        assert!(o.phase < PHASE_ONE);
    }
    let mut o2 = Oscillator::new();
    for _ in 0..1000 {
        o2.next_sample(440000, 44100);
        assert!(o2.phase < PHASE_ONE);
    }
}

#[test]
fn advance_wraps_extreme_deltas() {
    let mut o = Oscillator::new();
    o.advance(u64::MAX);
    assert!(o.phase < PHASE_ONE);
    o.advance(PHASE_ONE);
    assert!(o.phase < PHASE_ONE);
    o.advance(3 * PHASE_ONE + 7);
    assert!(o.phase < PHASE_ONE);
}

#[test]
fn sample_then_advance_order() {
    // The sample is taken at the phase before the advance.
    let mut o = Oscillator::new();
    let first = o.next_sample(440000, 44100);
    assert_eq!(first, 0);
    assert!(o.phase > 0);
}

#[test]
fn reset_zeroes_phase() {
    let mut o = Oscillator::new();
    o.advance(12345);
    o.reset();
    assert_eq!(o.phase, 0);
}

#[test]
fn midi_note_frequencies() {
    assert_eq!(midi_note_to_freq_millihz(69), 440000);
    assert_eq!(midi_note_to_freq_millihz(81), 880000);
    assert_eq!(midi_note_to_freq_millihz(57), 220000);
    assert_eq!(midi_note_to_freq_millihz(60), 261625);
    assert_eq!(midi_note_to_freq_millihz(0), 8175);
    assert_eq!(midi_note_to_freq_millihz(127), 12543853);
}
