//! The note abstraction: pitch classes, octaves and the bijection between
//! notes and MIDI numbers, together with transposition by half and whole
//! steps. Notes are the basis for scales, chords and everything played.

use vstd::prelude::*;

verus! {

/// The twelve chromatic pitch classes, spelled with flats only. Sharps are
/// normalized to their flat-equivalent spelling: most jazz-theoretic
/// formulas are based on flats (a Mixolydian scale is a major scale with a
/// flat 7), and one spelling per tone avoids redundancy.
#[derive(PartialEq, Eq, Structural, Debug, Clone, Copy, Hash)]
pub enum Name {
    C,
    Db,
    D,
    Eb,
    E,
    F,
    Gb,
    G,
    Ab,
    A,
    Bb,
    B,
}

impl Name {
    /// Chromatic position within an octave: C = 0 ... B = 11.
    pub open spec fn chroma(self) -> int {
        match self {
            Name::C => 0,
            Name::Db => 1,
            Name::D => 2,
            Name::Eb => 3,
            Name::E => 4,
            Name::F => 5,
            Name::Gb => 6,
            Name::G => 7,
            Name::Ab => 8,
            Name::A => 9,
            Name::Bb => 10,
            Name::B => 11,
        }
    }
}

/// The pitch class at a chromatic position; the inverse of `Name::chroma`
/// on positions 0 through 11.
pub open spec fn name_of_chroma(c: int) -> Name {
    if c == 0 {
        Name::C
    } else if c == 1 {
        Name::Db
    } else if c == 2 {
        Name::D
    } else if c == 3 {
        Name::Eb
    } else if c == 4 {
        Name::E
    } else if c == 5 {
        Name::F
    } else if c == 6 {
        Name::Gb
    } else if c == 7 {
        Name::G
    } else if c == 8 {
        Name::Ab
    } else if c == 9 {
        Name::A
    } else if c == 10 {
        Name::Bb
    } else {
        Name::B
    }
}

/// A specific pitch: a pitch class in a specific octave. Octave 4 holds
/// middle C (MIDI 60), consistent with scientific pitch notation.
#[derive(PartialEq, Eq, Structural, Debug, Clone, Copy, Hash)]
pub struct Note {
    pub name: Name,
    pub octave: i8,
}

impl Note {
    /// The MIDI number this note stands for: octave -1 starts at 0, so
    /// middle C (C, 4) is 60. A mathematical value; notes whose MIDI number
    /// falls outside [0, 127] cannot be played or transposed.
    pub open spec fn midi(self) -> int {
        (self.octave + 1) * 12 + self.name.chroma()
    }

    /// Whether the note lies within the valid MIDI span [0, 127].
    pub open spec fn in_midi_range(self) -> bool {
        0 <= self.midi() <= 127
    }
}

/// The unique note whose MIDI number is `m`, for `m` in [0, 127].
pub open spec fn note_of_midi(m: int) -> Note {
    Note { name: name_of_chroma(m % 12), octave: ((m / 12) - 1) as i8 }
}

/// The note `k` half steps above `n` (below, for negative `k`).
pub open spec fn transposed(n: Note, k: int) -> Note {
    note_of_midi(n.midi() + k)
}

/// Notes map back to themselves through their MIDI number: the note-to-MIDI
/// mapping is injective, whatever the octave.
pub proof fn lemma_note_of_midi_of_note(n: Note)
    ensures
        note_of_midi(n.midi()) == n,
{
    let m = n.midi();
    vstd::arithmetic::div_mod::lemma_fundamental_div_mod_converse(
        m,
        12,
        n.octave + 1,
        n.name.chroma(),
    );
    assert(m % 12 == n.name.chroma());
    assert(m / 12 == n.octave + 1);
}

/// MIDI numbers in [0, 127] map back to themselves through their note: the
/// MIDI-to-note mapping is injective on the valid span, and lands in it.
pub proof fn lemma_midi_of_note_of_midi(m: int)
    requires
        0 <= m <= 127,
    ensures
        note_of_midi(m).midi() == m,
        note_of_midi(m).in_midi_range(),
{
    vstd::arithmetic::div_mod::lemma_fundamental_div_mod(m, 12);
}

/// Transposing up by `k` and back down by `k` returns the original note,
/// whenever both transpositions stay within the MIDI span.
pub proof fn lemma_transpose_round_trip(n: Note, k: int)
    requires
        n.in_midi_range(),
        0 <= n.midi() + k <= 127,
    ensures
        transposed(transposed(n, k), -k) == n,
{
    lemma_midi_of_note_of_midi(n.midi() + k);
    lemma_note_of_midi_of_note(n);
}

/// Flattening a sharpened note returns the original: `flat(sharp(n)) == n`
/// for every in-range note whose sharp is also in range.
pub proof fn lemma_flat_of_sharp(n: Note)
    requires
        n.in_midi_range(),
        n.midi() + 1 <= 127,
    ensures
        transposed(transposed(n, 1), -1) == n,
{
    lemma_transpose_round_trip(n, 1);
}

/// Sharpening a flattened note returns the original: `sharp(flat(n)) == n`
/// for every in-range note whose flat is also in range.
pub proof fn lemma_sharp_of_flat(n: Note)
    requires
        n.in_midi_range(),
        1 <= n.midi(),
    ensures
        transposed(transposed(n, -1), 1) == n,
{
    lemma_transpose_round_trip(n, -1);
}

/// Chromatic position of a pitch class, as a machine integer.
fn chroma_value(name: Name) -> (c: u8)
    ensures
        c as int == name.chroma(),
{
    match name {
        Name::C => 0,
        Name::Db => 1,
        Name::D => 2,
        Name::Eb => 3,
        Name::E => 4,
        Name::F => 5,
        Name::Gb => 6,
        Name::G => 7,
        Name::Ab => 8,
        Name::A => 9,
        Name::Bb => 10,
        Name::B => 11,
    }
}

/// Pitch class at a chromatic position, as executable code.
fn name_from_chroma(c: u8) -> (name: Name)
    requires
        c < 12,
    ensures
        name == name_of_chroma(c as int),
{
    match c {
        0 => Name::C,
        1 => Name::Db,
        2 => Name::D,
        3 => Name::Eb,
        4 => Name::E,
        5 => Name::F,
        6 => Name::Gb,
        7 => Name::G,
        8 => Name::Ab,
        9 => Name::A,
        10 => Name::Bb,
        _ => Name::B,
    }
}

impl Note {
    pub fn new(name: Name, octave: i8) -> (n: Note)
        ensures
            n == (Note { name, octave }),
    {
        Note { name, octave }
    }

    pub fn get_name(&self) -> (name: Name)
        ensures
            name == self.name,
    {
        self.name
    }

    pub fn get_octave(&self) -> (octave: i8)
        ensures
            octave == self.octave,
    {
        self.octave
    }

    /// The note's MIDI number, on a machine integer wide enough for any
    /// octave, in or out of the valid span.
    pub(crate) fn midi_wide(&self) -> (m: i32)
        ensures
            m == self.midi(),
    {
        (self.octave as i32 + 1) * 12 + chroma_value(self.name) as i32
    }

    /// The MIDI value associated with this particular note.
    pub fn get_midi_value(&self) -> (m: i8)
        requires
            self.in_midi_range(),
        ensures
            m as int == self.midi(),
    {
        self.midi_wide() as i8
    }

    /// The unique note with the given MIDI number.
    pub fn from_midi(m: i8) -> (n: Note)
        requires
            0 <= m,
        ensures
            n == note_of_midi(m as int),
            n.in_midi_range(),
    {
        proof {
            lemma_midi_of_note_of_midi(m as int);
        }
        let u: u8 = m as u8;
        Note { name: name_from_chroma(u % 12), octave: (u / 12) as i8 - 1 }
    }

    /// The note a given number of half steps (potentially negative) away
    /// from this one.
    pub fn add_half_steps(&self, num_half_steps: i8) -> (n: Note)
        requires
            self.in_midi_range(),
            0 <= self.midi() + num_half_steps <= 127,
        ensures
            n == transposed(*self, num_half_steps as int),
            n.in_midi_range(),
    {
        let m: i32 = self.midi_wide() + num_half_steps as i32;
        Note::from_midi(m as i8)
    }

    /// The note a given number of whole steps away from this one.
    pub fn add_whole_steps(&self, num_whole_steps: i8) -> (n: Note)
        requires
            self.in_midi_range(),
            0 <= self.midi() + 2 * num_whole_steps <= 127,
        ensures
            n == transposed(*self, 2 * num_whole_steps),
            n.in_midi_range(),
    {
        let h: i32 = 2 * (num_whole_steps as i32);
        self.add_half_steps(h as i8)
    }

    /// The note one half step above this one.
    pub fn sharp(&self) -> (n: Note)
        requires
            self.in_midi_range(),
            self.midi() + 1 <= 127,
        ensures
            n == transposed(*self, 1),
            n.in_midi_range(),
    {
        self.add_half_steps(1)
    }

    /// The note one half step below this one.
    pub fn flat(&self) -> (n: Note)
        requires
            self.in_midi_range(),
            1 <= self.midi(),
        ensures
            n == transposed(*self, -1),
            n.in_midi_range(),
    {
        self.add_half_steps(-1)
    }
}

/// Notes are ordered by their MIDI number. With one spelling per tone the
/// MIDI mapping is injective, so this order agrees with equality.
impl PartialOrd for Note {
    fn partial_cmp(&self, other: &Note) -> (r: Option<core::cmp::Ordering>) {
        let a = self.midi_wide();
        let b = other.midi_wide();
        if a < b {
            Some(core::cmp::Ordering::Less)
        } else if a == b {
            Some(core::cmp::Ordering::Equal)
        } else {
            Some(core::cmp::Ordering::Greater)
        }
    }
}

impl vstd::std_specs::cmp::PartialOrdSpecImpl for Note {
    open spec fn obeys_partial_cmp_spec() -> bool {
        true
    }

    open spec fn partial_cmp_spec(&self, other: &Note) -> Option<core::cmp::Ordering> {
        if self.midi() < other.midi() {
            Some(core::cmp::Ordering::Less)
        } else if self.midi() == other.midi() {
            Some(core::cmp::Ordering::Equal)
        } else {
            Some(core::cmp::Ordering::Greater)
        }
    }
}

/// Anything that can be sounded as a group of simultaneous MIDI notes: a
/// single note, a vector of notes sounded together, or a chord voicing.
pub trait Playable {
    /// When the value can be played: every note it holds lies in the MIDI
    /// span (and, for a chord, its voicing resolves within it).
    spec fn playable_wf(&self) -> bool;

    /// The MIDI numbers this value sounds, in order.
    spec fn play_view(&self) -> Seq<i8>;

    fn play(&self) -> (r: Vec<i8>)
        requires
            self.playable_wf(),
        ensures
            r@ == self.play_view(),
    ;
}

impl Playable for Note {
    open spec fn playable_wf(&self) -> bool {
        self.in_midi_range()
    }

    open spec fn play_view(&self) -> Seq<i8> {
        seq![self.midi() as i8]
    }

    fn play(&self) -> (r: Vec<i8>) {
        let mut r: Vec<i8> = Vec::new();
        r.push(self.get_midi_value());
        assert(r@ =~= self.play_view());
        r
    }
}

/// Multiple notes in a vector are sounded at the same time, as one unit.
impl Playable for Vec<Note> {
    open spec fn playable_wf(&self) -> bool {
        forall|i: int| 0 <= i < self@.len() ==> self@[i].in_midi_range()
    }

    open spec fn play_view(&self) -> Seq<i8> {
        Seq::new(self@.len(), |i: int| self@[i].midi() as i8)
    }

    fn play(&self) -> (r: Vec<i8>) {
        let mut r: Vec<i8> = Vec::new();
        let mut i: usize = 0;
        while i < self.len()
            invariant
                self.playable_wf(),
                i <= self@.len(),
                r@ =~= self.play_view().take(i as int),
            decreases self@.len() - i,
        {
            r.push(self[i].get_midi_value());
            i += 1;
        }
        assert(r@ =~= self.play_view());
        r
    }
}

/// Why a note token was rejected.
#[derive(PartialEq, Eq, Structural, Debug, Clone, Copy)]
pub enum ParseError {
    /// The token is not two or three characters long.
    WrongLength,
    /// The first character is not a natural note letter A through G.
    UnknownLetter,
    /// The middle character of a three-character token is neither `s` nor
    /// `b`.
    UnknownAccidental,
    /// The final character is not a decimal digit.
    BadOctave,
    /// Applying the accidental would leave the valid MIDI span.
    OutOfRange,
}

/// The pitch class a natural note letter stands for, if any.
pub open spec fn letter_name(c: char) -> Option<Name> {
    if c == 'C' {
        Some(Name::C)
    } else if c == 'D' {
        Some(Name::D)
    } else if c == 'E' {
        Some(Name::E)
    } else if c == 'F' {
        Some(Name::F)
    } else if c == 'G' {
        Some(Name::G)
    } else if c == 'A' {
        Some(Name::A)
    } else if c == 'B' {
        Some(Name::B)
    } else {
        None
    }
}

/// The value of a decimal digit character, if it is one.
pub open spec fn digit_of_char(c: char) -> Option<int> {
    if c == '0' {
        Some(0)
    } else if c == '1' {
        Some(1)
    } else if c == '2' {
        Some(2)
    } else if c == '3' {
        Some(3)
    } else if c == '4' {
        Some(4)
    } else if c == '5' {
        Some(5)
    } else if c == '6' {
        Some(6)
    } else if c == '7' {
        Some(7)
    } else if c == '8' {
        Some(8)
    } else if c == '9' {
        Some(9)
    } else {
        None
    }
}

/// What parsing a note token yields: a single natural note letter, an
/// optional accidental marker (`s` for sharp, `b` for flat) and a single
/// octave digit. A sharp or flat token resolves to the half-step neighbour
/// of the natural note, so accidentals are normalized to flat spelling.
pub open spec fn parse_note_spec(s: Seq<char>) -> Result<Note, ParseError> {
    if s.len() < 2 || s.len() > 3 {
        Err(ParseError::WrongLength)
    } else {
        match letter_name(s[0]) {
            None => Err(ParseError::UnknownLetter),
            Some(name) => if s.len() == 3 && s[1] != 's' && s[1] != 'b' {
                Err(ParseError::UnknownAccidental)
            } else {
                match digit_of_char(s[s.len() - 1]) {
                    None => Err(ParseError::BadOctave),
                    Some(d) => {
                        let natural = Note { name, octave: d as i8 };
                        if s.len() == 2 {
                            Ok(natural)
                        } else {
                            let shift: int = if s[1] == 's' {
                                1
                            } else {
                                -1
                            };
                            if natural.in_midi_range() && 0 <= natural.midi() + shift <= 127 {
                                Ok(transposed(natural, shift))
                            } else {
                                Err(ParseError::OutOfRange)
                            }
                        }
                    },
                }
            },
        }
    }
}

/// The pitch class a natural note letter stands for, as executable code.
fn letter_to_name(c: char) -> (r: Option<Name>)
    ensures
        r == letter_name(c),
{
    match c {
        'C' => Some(Name::C),
        'D' => Some(Name::D),
        'E' => Some(Name::E),
        'F' => Some(Name::F),
        'G' => Some(Name::G),
        'A' => Some(Name::A),
        'B' => Some(Name::B),
        _ => None,
    }
}

/// The value of a decimal digit character, as executable code.
fn char_to_digit(c: char) -> (r: Option<u8>)
    ensures
        match r {
            Some(d) => digit_of_char(c) == Some(d as int),
            None => digit_of_char(c) is None,
        },
{
    match c {
        '0' => Some(0),
        '1' => Some(1),
        '2' => Some(2),
        '3' => Some(3),
        '4' => Some(4),
        '5' => Some(5),
        '6' => Some(6),
        '7' => Some(7),
        '8' => Some(8),
        '9' => Some(9),
        _ => None,
    }
}

impl Note {
    /// Parses a textual note token such as `C4`, `Cs4` or `Db4`: a natural
    /// note letter, an optional accidental marker (`s` = sharp, `b` = flat)
    /// and a single octave digit. Malformed tokens are rejected with a
    /// descriptive error; an accidental that would leave the MIDI span is
    /// rejected rather than wrapped.
    pub fn parse(token: &str) -> (r: Result<Note, ParseError>)
        ensures
            r == parse_note_spec(token@),
    {
        let len = token.unicode_len();
        if len < 2 || len > 3 {
            return Err(ParseError::WrongLength);
        }
        let name = match letter_to_name(token.get_char(0)) {
            Some(name) => name,
            None => {
                return Err(ParseError::UnknownLetter);
            },
        };
        if len == 3 {
            let acc = token.get_char(1);
            if acc != 's' && acc != 'b' {
                return Err(ParseError::UnknownAccidental);
            }
        }
        let d = match char_to_digit(token.get_char(len - 1)) {
            Some(d) => d,
            None => {
                return Err(ParseError::BadOctave);
            },
        };
        let natural = Note { name, octave: d as i8 };
        if len == 2 {
            return Ok(natural);
        }
        let m = natural.midi_wide();
        let shift: i32 = if token.get_char(1) == 's' {
            1
        } else {
            -1
        };
        if 0 <= m && m <= 127 && 0 <= m + shift && m + shift <= 127 {
            Ok(natural.add_half_steps(shift as i8))
        } else {
            Err(ParseError::OutOfRange)
        }
    }
}

} // verus!
