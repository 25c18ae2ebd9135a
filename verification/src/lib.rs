//! Real-time synthesis core of a polyphonic software instrument.
//!
//! The core turns a stream of timed note events and a small set of
//! envelope and gain parameters into a stream of audio samples. All
//! values are fixed-point integers: amplitudes are Q16 fractions of
//! [`units::AMP_ONE`], oscillator phase is a fraction of
//! [`units::PHASE_ONE`], frequencies are in millihertz and stage
//! durations in whole milliseconds. A host-facing layer converts these
//! to and from whatever floating-point domain the host uses.

pub mod envelope;
pub mod event;
pub mod note;
pub mod oscillator;
pub mod pool;
pub mod scheduler;
pub mod smoother;
pub mod synth;
pub mod units;
pub mod voice;
