use fm_synth::smoother::{GainSmoother, SmoothingStyle};

#[test]
fn linear_ramp_reaches_target_exactly() {
    let mut s = GainSmoother::new(SmoothingStyle::Linear { time_ms: 10 });
    s.set_target(1000, 65536);
    let mut last: u64 = 0;
    for _ in 0..10 {
        let v = s.next();
        assert!(v >= last);
        assert!(v <= 65536);
        last = v;
    }
    assert_eq!(s.current, 65536);
    assert_eq!(s.next(), 65536);
}

#[test]
fn ramp_picks_up_from_current_value() {
    let mut s = GainSmoother::new(SmoothingStyle::Linear { time_ms: 10 });
    s.set_target(1000, 65536);
    for _ in 0..5 {
        s.next();
    }
    let mid = s.current;
    assert!(mid > 0 && mid < 65536);
    // Re-target downward mid-flight: the ramp starts from `mid`, never
    // jumping, and lands exactly on the new target.
    s.set_target(1000, 1000);
    let mut last = mid;
    for _ in 0..10 {
        let v = s.next();
        assert!(v <= last);
        assert!(v >= 1000);
        last = v;
    }
    assert_eq!(s.current, 1000);
}

#[test]
fn exponential_ramp_never_overshoots() {
    let mut s = GainSmoother::new(SmoothingStyle::Exponential { time_ms: 10 });
    s.set_target(1000, 65536);
    // First step covers a tenth of the distance; later steps cover a tenth
    // of what remains.
    let first = s.next();
    assert_eq!(first, 6553);
    let second = s.next();
    assert_eq!(second, 6553 + (65536 - 6553) / 10);
    let mut last = second;
    for _ in 0..8 {
        let v = s.next();
        assert!(v >= last);
        assert!(v <= 65536);
        last = v;
    }
    // Once the ramp time is spent the smoother rests at the target.
    assert_eq!(s.next(), 65536);
}

#[test]
fn reset_jumps_without_ramp() {
    let mut s = GainSmoother::new(SmoothingStyle::Linear { time_ms: 10 });
    s.set_target(1000, 65536);
    s.next();
    s.reset(300);
    assert_eq!(s.current, 300);
    assert_eq!(s.next(), 300);
}
