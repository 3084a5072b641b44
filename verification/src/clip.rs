//! Clips: the smallest named units of sound material. A clip is either an
//! instrument pattern (parallel sequences of simultaneous MIDI pitches and
//! durations, with rests), a reference to an audio file, or a named rest.

use vstd::prelude::*;

use crate::duration::Duration;

verus! {

/// A named unit of sound material.
pub enum Clip {
    /// Clip name, instrument name, notes and durations. The two sequences
    /// run in parallel and must have equal length; a `None` entry denotes
    /// a rest at that position, a `Some` entry the MIDI pitches sounded
    /// simultaneously at that position.
    Instrument(String, String, Vec<Option<Vec<i8>>>, Vec<Duration>),
    /// Clip name and the full path to an audio file.
    File(String, String),
    /// Clip name and the duration of the rest it stands for.
    Empty(String, Duration),
}

impl Clip {
    /// The name of the clip, whichever kind it is.
    pub open spec fn name_view(&self) -> Seq<char> {
        match self {
            Clip::Instrument(name, _, _, _) => name@,
            Clip::File(name, _) => name@,
            Clip::Empty(name, _) => name@,
        }
    }

    /// Well-formedness: an instrument clip sounds one group of pitches per
    /// duration, so its two sequences have equal length.
    pub open spec fn wf(&self) -> bool {
        match self {
            Clip::Instrument(_, _, notes, durations) => notes@.len() == durations@.len(),
            Clip::File(_, _) => true,
            Clip::Empty(_, _) => true,
        }
    }

    pub fn get_name(&self) -> (r: String)
        ensures
            r@ == self.name_view(),
    {
        match self {
            Clip::Instrument(name, _, _, _) => name.clone(),
            Clip::File(name, _) => name.clone(),
            Clip::Empty(name, _) => name.clone(),
        }
    }
}

} // verus!
