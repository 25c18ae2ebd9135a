//! The twelve-tone equal-tempered mapping from MIDI note numbers to
//! frequencies, anchored at note 69 = 440 Hz, in fixed point.
//!
//! A note `n` sounds at `440 * 2^((n - 69) / 12)` Hz. The twelve semitone
//! ratios within one octave are tabulated as Q24 fixed-point constants and
//! the octave is a shift by a power of two, so note 69 maps to exactly
//! 440 000 millihertz.

use crate::oscillator::MAX_FREQ_MILLIHZ;
use vstd::arithmetic::div_mod::{
    lemma_div_is_ordered, lemma_div_pos_is_pos, lemma_mod_bound,
};
use vstd::prelude::*;

verus! {

/// One, as a Q24 fixed-point semitone ratio.
pub const RATIO_ONE_Q24: u64 = 16777216;

/// Q24 value of `2^(idx / 12)` for a semitone index within one octave.
pub open spec fn semitone_ratio_q24(idx: int) -> int {
    if idx == 0 {
        16777216
    } else if idx == 1 {
        17774841
    } else if idx == 2 {
        18831788
    } else if idx == 3 {
        19951585
    } else if idx == 4 {
        21137968
    } else if idx == 5 {
        22394897
    } else if idx == 6 {
        23726566
    } else if idx == 7 {
        25137421
    } else if idx == 8 {
        26632170
    } else if idx == 9 {
        28215802
    } else if idx == 10 {
        29893600
    } else {
        31671166
    }
}

/// `2^e` for the small octave exponents the note range needs.
pub open spec fn pow2_small(e: int) -> int {
    if e <= 0 {
        1
    } else if e == 1 {
        2
    } else if e == 2 {
        4
    } else if e == 3 {
        8
    } else if e == 4 {
        16
    } else if e == 5 {
        32
    } else if e == 6 {
        64
    } else if e == 7 {
        128
    } else if e == 8 {
        256
    } else if e == 9 {
        512
    } else if e == 10 {
        1024
    } else if e == 11 {
        2048
    } else if e == 12 {
        4096
    } else if e == 13 {
        8192
    } else if e == 14 {
        16384
    } else {
        32768
    }
}

/// Frequency of a MIDI note in millihertz: the semitone ratio for the
/// note's position within its octave, scaled by the octave's power of two
/// relative to the octave of note 69.
pub open spec fn midi_freq_millihz(note: u8) -> int {
    let idx = (note + 3) % 12;
    let oct = (note + 3) / 12;
    let base = 440000 * semitone_ratio_q24(idx);
    if oct >= 6 {
        base * pow2_small(oct - 6) / (RATIO_ONE_Q24 as int)
    } else {
        base / pow2_small(6 - oct) / (RATIO_ONE_Q24 as int)
    }
}

fn semitone_ratio(idx: u64) -> (r: u64)
    requires
        idx < 12,
    ensures
        r == semitone_ratio_q24(idx as int),
        RATIO_ONE_Q24 <= r <= 31671166,
{
    if idx == 0 {
        16777216
    } else if idx == 1 {
        17774841
    } else if idx == 2 {
        18831788
    } else if idx == 3 {
        19951585
    } else if idx == 4 {
        21137968
    } else if idx == 5 {
        22394897
    } else if idx == 6 {
        23726566
    } else if idx == 7 {
        25137421
    } else if idx == 8 {
        26632170
    } else if idx == 9 {
        28215802
    } else if idx == 10 {
        29893600
    } else {
        31671166
    }
}

fn pow2_up_to_32768(e: u64) -> (r: u64)
    ensures
        r == pow2_small(e as int),
        1 <= r <= 32768,
{
    if e == 0 {
        1
    } else if e == 1 {
        2
    } else if e == 2 {
        4
    } else if e == 3 {
        8
    } else if e == 4 {
        16
    } else if e == 5 {
        32
    } else if e == 6 {
        64
    } else if e == 7 {
        128
    } else if e == 8 {
        256
    } else if e == 9 {
        512
    } else if e == 10 {
        1024
    } else if e == 11 {
        2048
    } else if e == 12 {
        4096
    } else if e == 13 {
        8192
    } else if e == 14 {
        16384
    } else {
        32768
    }
}

/// Frequency in millihertz that a MIDI note sounds at, fixed for a voice's
/// whole life when a note is triggered.
pub fn midi_note_to_freq_millihz(note: u8) -> (r: u64)
    ensures
        r == midi_freq_millihz(note),
        r <= MAX_FREQ_MILLIHZ,
{
    let n: u64 = note as u64 + 3;
    proof {
        lemma_mod_bound(n as int, 12);
        lemma_div_pos_is_pos(n as int, 12);
        lemma_div_is_ordered(n as int, 258, 12);
    }
    let idx: u64 = n % 12;
    let oct: u64 = n / 12;
    let ratio = semitone_ratio(idx);
    let base: u64 = 440000 * ratio;
    if oct >= 6 {
        let m = pow2_up_to_32768(oct - 6);
        proof {
            assert(base as int * m as int <= 440000 * 31671166 * (32768 as int)) by (nonlinear_arith)
                requires
                    base <= 440000 * (31671166 as u64),
                    m <= 32768u64,
                    0 <= base as int,
                    0 <= m as int,
            ;
            lemma_div_pos_is_pos(base as int * m as int, RATIO_ONE_Q24 as int);
            lemma_div_is_ordered(
                base as int * m as int,
                440000 * 31671166 * (32768 as int),
                RATIO_ONE_Q24 as int,
            );
        }
        (base * m) / RATIO_ONE_Q24
    } else {
        let d = pow2_up_to_32768(6 - oct);
        proof {
            lemma_div_pos_is_pos(base as int, d as int);
            lemma_div_is_ordered(base as int / d as int, 440000 * (31671166 as int), RATIO_ONE_Q24 as int);
            lemma_div_is_ordered(base as int, 440000 * (31671166 as int), d as int);
            assert(440000 * (31671166 as int) / d as int <= 440000 * (31671166 as int)) by {
                crate::units::lemma_div_le_self(440000 * (31671166 as int), d as int);
            }
        }
        (base / d) / RATIO_ONE_Q24
    }
}

} // verus!
