//! Note durations. A duration is a fixed-point count of sixteenths of a
//! whole note, which represents every beat value exactly and renders to an
//! exact decimal when an arrangement is lowered to text.

use vstd::prelude::*;

verus! {

/// A duration, measured in sixteenths of a whole note: a whole note is 16,
/// a half note 8, a quarter 4, an eighth 2, a sixteenth 1.
#[derive(PartialEq, Eq, Structural, Debug, Clone, Copy, Hash)]
pub struct Duration(pub u32);

/// Whole note, half note, quarter note, eighth note, sixteenth note.
#[derive(PartialEq, Eq, Structural, Debug, Clone, Copy, Hash)]
pub enum Beat {
    W,
    H,
    Q,
    E,
    S,
}

impl Beat {
    /// The length of the beat, in sixteenths of a whole note.
    pub open spec fn sixteenths(self) -> u32 {
        match self {
            Beat::W => 16,
            Beat::H => 8,
            Beat::Q => 4,
            Beat::E => 2,
            Beat::S => 1,
        }
    }

    /// The beat as a duration value.
    pub fn duration(self) -> (d: Duration)
        ensures
            d.0 == self.sixteenths(),
    {
        match self {
            Beat::W => Duration(16),
            Beat::H => Duration(8),
            Beat::Q => Duration(4),
            Beat::E => Duration(2),
            Beat::S => Duration(1),
        }
    }
}

/// The duration a beat letter stands for: `W`, `H`, `Q`, `E` and `S` name
/// the five beats; any other letter maps to the zero duration. The zero
/// fallback is a deliberate, documented silent default, preserved rather
/// than turned into an error.
pub open spec fn letter_sixteenths(c: char) -> u32 {
    if c == 'W' {
        16
    } else if c == 'H' {
        8
    } else if c == 'Q' {
        4
    } else if c == 'E' {
        2
    } else if c == 'S' {
        1
    } else {
        0
    }
}

/// The duration a beat letter stands for, as executable code.
pub fn duration_of_letter(c: char) -> (d: Duration)
    ensures
        d.0 == letter_sixteenths(c),
{
    match c {
        'W' => Duration(16),
        'H' => Duration(8),
        'Q' => Duration(4),
        'E' => Duration(2),
        'S' => Duration(1),
        _ => Duration(0),
    }
}

} // verus!
