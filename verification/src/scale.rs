//! The scale abstraction. Scales are sequences of notes defined relative to
//! a base note and a formula of cumulative half-step intervals. Degrees walk
//! the formula in either direction, wrapping across octave boundaries, and
//! arabic-numeral tones resolve to the lowest matching pitch at or above a
//! preceding note, which makes voicings non-descending.

use vstd::prelude::*;

use crate::note::{Note, note_of_midi, transposed};

verus! {

/// The quality of a scale. Each quality except `Other` maps to a formula of
/// half-step offsets from the root; `Other` is a placeholder for qualities
/// without a formula, which cannot be resolved.
#[derive(PartialEq, Eq, Structural, Debug, Clone, Copy, Hash)]
pub enum ScaleType {
    Major,
    Mixolydian,
    Dorian,
    Other,
}

/// Arabic number tones convey a 1-based position relative to a major scale.
/// They are used in jazz theory to describe formulas for chords and scales
/// in general, optionally raised or lowered by a half step.
#[derive(PartialEq, Eq, Structural, Debug, Clone, Copy, Hash)]
pub enum ArabicNum {
    Natural(i8),
    Sharp(i8),
    Flat(i8),
}

/// A scale: a base note and a quality. Derived, not owning: the notes are
/// computed on demand from the formula table.
#[derive(PartialEq, Eq, Structural, Debug, Clone, Copy)]
pub struct Scale {
    pub base_note: Note,
    pub scale_type: ScaleType,
}

/// The formula of a scale quality: ascending half-step offsets from the
/// root, starting at 0, all below an octave, ending right before the octave.
pub open spec fn scale_formula(t: ScaleType) -> Seq<i8> {
    match t {
        ScaleType::Major => seq![0i8, 2i8, 4i8, 5i8, 7i8, 9i8, 11i8],
        ScaleType::Mixolydian => seq![0i8, 2i8, 4i8, 5i8, 7i8, 9i8, 10i8],
        ScaleType::Dorian => seq![0i8, 2i8, 3i8, 5i8, 7i8, 9i8, 10i8],
        ScaleType::Other => seq![],
    }
}

/// Whether a scale quality has a formula to resolve degrees against.
pub open spec fn has_formula(t: ScaleType) -> bool {
    t != ScaleType::Other
}

/// The half-step offset of scale degree `d` from the base note: `d` is
/// split by floor division into an octave count and an in-formula position,
/// so the offset is continuous and monotonic in `d` across octave wraps.
pub open spec fn degree_offset(t: ScaleType, d: int) -> int {
    let f = scale_formula(t);
    let l = f.len() as int;
    12 * (d / l) + f[d % l]
}

/// The note at degree `d` of a scale: degree 0 is the base note itself,
/// positive and negative degrees walk forward and backward through the
/// formula, wrapping across octave boundaries.
pub open spec fn degree_note(s: Scale, d: int) -> Note {
    transposed(s.base_note, degree_offset(s.scale_type, d))
}

/// The formula of a scale quality, as an executable vector.
fn scale_formula_vec(t: ScaleType) -> (f: Vec<i8>)
    ensures
        f@ == scale_formula(t),
{
    match t {
        ScaleType::Major => {
            let f = vec![0i8, 2i8, 4i8, 5i8, 7i8, 9i8, 11i8];
            assert(f@ =~= scale_formula(t));
            f
        },
        ScaleType::Mixolydian => {
            let f = vec![0i8, 2i8, 4i8, 5i8, 7i8, 9i8, 10i8];
            assert(f@ =~= scale_formula(t));
            f
        },
        ScaleType::Dorian => {
            let f = vec![0i8, 2i8, 3i8, 5i8, 7i8, 9i8, 10i8];
            assert(f@ =~= scale_formula(t));
            f
        },
        ScaleType::Other => {
            let f = Vec::new();
            assert(f@ =~= scale_formula(t));
            f
        },
    }
}

/// Every formula has seven tones, all within one octave.
proof fn lemma_formula_len(t: ScaleType)
    requires
        has_formula(t),
    ensures
        scale_formula(t).len() == 7,
        forall|i: int| 0 <= i < 7 ==> 0 <= #[trigger] scale_formula(t)[i] <= 11,
{
}

/// The half-step offset of degree `d`, as executable code. Floor division
/// and floor modulo keep the offset continuous across negative degrees.
fn degree_offset_value(t: ScaleType, d: i64) -> (r: i64)
    requires
        has_formula(t),
        -129 <= d <= 127,
    ensures
        r == degree_offset(t, d as int),
        -240 <= r <= 240,
{
    proof {
        lemma_formula_len(t);
    }
    let f = scale_formula_vec(t);
    let q: i64;
    let rem: i64;
    if d >= 0 {
        let du: u64 = d as u64;
        q = (du / 7) as i64;
        rem = (du % 7) as i64;
    } else {
        let m: u64 = (6 - d) as u64;
        let qq: u64 = m / 7;
        proof {
            vstd::arithmetic::div_mod::lemma_fundamental_div_mod(m as int, 7);
        }
        q = -(qq as i64);
        rem = d + (qq as i64) * 7;
    }
    proof {
        vstd::arithmetic::div_mod::lemma_fundamental_div_mod_converse(
            d as int,
            7,
            q as int,
            rem as int,
        );
    }
    let idx: usize = rem as usize;
    12 * q + f[idx] as i64
}

/// The 1-based major-scale position a numeral names, as a 0-based degree.
pub open spec fn numeral_position(a: ArabicNum) -> int {
    match a {
        ArabicNum::Natural(n) => n - 1,
        ArabicNum::Sharp(n) => n - 1,
        ArabicNum::Flat(n) => n - 1,
    }
}

/// The half-step adjustment a numeral's accidental applies.
pub open spec fn numeral_shift(a: ArabicNum) -> int {
    match a {
        ArabicNum::Natural(_) => 0,
        ArabicNum::Sharp(_) => 1,
        ArabicNum::Flat(_) => -1,
    }
}

/// The MIDI number of the raw (not yet re-octaved) note a numeral names in
/// a scale: the degree note, adjusted by the accidental.
pub open spec fn numeral_midi(s: Scale, a: ArabicNum) -> int {
    s.base_note.midi() + degree_offset(s.scale_type, numeral_position(a)) + numeral_shift(a)
}

/// Whether the raw note a numeral names, before and after its accidental,
/// lies within the MIDI span.
pub open spec fn numeral_ok(s: Scale, a: ArabicNum) -> bool {
    let m0 = s.base_note.midi() + degree_offset(s.scale_type, numeral_position(a));
    &&& 0 <= m0 <= 127
    &&& 0 <= m0 + numeral_shift(a) <= 127
}

/// The MIDI number of the resolved numeral: its pitch class, re-octaved to
/// the lowest position at or above the preceding note.
pub open spec fn resolve_midi(s: Scale, a: ArabicNum, preceding: Note) -> int {
    let pc = numeral_midi(s, a) % 12;
    let cand = (preceding.octave + 1) * 12 + pc;
    if cand < preceding.midi() {
        cand + 12
    } else {
        cand
    }
}

/// Whether one numeral-resolution step succeeds: the scale can be resolved,
/// the anchor is a valid pitch, and every intermediate note stays within
/// the MIDI span.
pub open spec fn step_ok(s: Scale, a: ArabicNum, preceding: Note) -> bool {
    &&& has_formula(s.scale_type)
    &&& s.base_note.in_midi_range()
    &&& preceding.in_midi_range()
    &&& numeral_ok(s, a)
    &&& (preceding.octave + 1) * 12 + numeral_midi(s, a) % 12 <= 127
    &&& resolve_midi(s, a, preceding) <= 127
}

impl Scale {
    pub fn new(base_note: Note, scale_type: ScaleType) -> (s: Scale)
        ensures
            s == (Scale { base_note, scale_type }),
    {
        Scale { base_note, scale_type }
    }

    /// The note `degree` positions away from the base note of the scale.
    /// Degree 0 is the base note; degree 7 of a seven-tone scale is the
    /// base note one octave up.
    pub fn get_degree(&self, degree: i8) -> (n: Note)
        requires
            has_formula(self.scale_type),
            self.base_note.in_midi_range(),
            0 <= self.base_note.midi() + degree_offset(self.scale_type, degree as int) <= 127,
        ensures
            n == degree_note(*self, degree as int),
            n.in_midi_range(),
    {
        let off = degree_offset_value(self.scale_type, degree as i64);
        let m: i64 = self.base_note.midi_wide() as i64 + off;
        Note::from_midi(m as i8)
    }

    /// The note with the given arabic number, re-octaved to the lowest
    /// pitch at or above `preceding_note` with that numeral's pitch class:
    /// a "next note at or above" policy, convenient for voicings.
    pub fn get_arabic_num(&self, arabic_num: &ArabicNum, preceding_note: &Note) -> (n: Note)
        requires
            step_ok(*self, *arabic_num, *preceding_note),
        ensures
            n == note_of_midi(resolve_midi(*self, *arabic_num, *preceding_note)),
            n.in_midi_range(),
            preceding_note.midi() <= n.midi() < preceding_note.midi() + 12,
            n.midi() % 12 == numeral_midi(*self, *arabic_num) % 12,
    {
        proof {
            lemma_resolve_bounds(*self, *arabic_num, *preceding_note);
        }
        let num: i8;
        let shift: i64;
        match *arabic_num {
            ArabicNum::Natural(k) => {
                num = k;
                shift = 0;
            },
            ArabicNum::Sharp(k) => {
                num = k;
                shift = 1;
            },
            ArabicNum::Flat(k) => {
                num = k;
                shift = -1;
            },
        }
        let off = degree_offset_value(self.scale_type, num as i64 - 1);
        let m1: i64 = self.base_note.midi_wide() as i64 + off + shift;
        let pc: u8 = (m1 as u8) % 12;
        let cand: i32 = (preceding_note.octave as i32 + 1) * 12 + pc as i32;
        let pm: i32 = preceding_note.midi_wide();
        let res: i32 = if cand < pm {
            cand + 12
        } else {
            cand
        };
        Note::from_midi(res as i8)
    }
}

/// Decides at run time whether one numeral-resolution step succeeds.
pub(crate) fn step_check(s: &Scale, a: &ArabicNum, preceding: &Note) -> (r: bool)
    ensures
        r == step_ok(*s, *a, *preceding),
{
    match s.scale_type {
        ScaleType::Other => {
            return false;
        },
        _ => {},
    }
    let base_m = s.base_note.midi_wide();
    if base_m < 0 || base_m > 127 {
        return false;
    }
    let p_m = preceding.midi_wide();
    if p_m < 0 || p_m > 127 {
        return false;
    }
    let num: i8;
    let shift: i64;
    match *a {
        ArabicNum::Natural(k) => {
            num = k;
            shift = 0;
        },
        ArabicNum::Sharp(k) => {
            num = k;
            shift = 1;
        },
        ArabicNum::Flat(k) => {
            num = k;
            shift = -1;
        },
    }
    let off = degree_offset_value(s.scale_type, num as i64 - 1);
    let m0: i64 = base_m as i64 + off;
    if m0 < 0 || m0 > 127 {
        return false;
    }
    let m1: i64 = m0 + shift;
    if m1 < 0 || m1 > 127 {
        return false;
    }
    let pc: u8 = (m1 as u8) % 12;
    let cand: i64 = (preceding.octave as i64 + 1) * 12 + pc as i64;
    if cand > 127 {
        return false;
    }
    let res: i64 = if cand < p_m as i64 {
        cand + 12
    } else {
        cand
    };
    res <= 127
}

/// The anchor note after resolving a sequence of numerals one by one, each
/// against the previous result, starting from `anchor`.
pub open spec fn voicing_end(s: Scale, nums: Seq<ArabicNum>, anchor: Note) -> Note
    decreases nums.len(),
{
    if nums.len() == 0 {
        anchor
    } else {
        note_of_midi(resolve_midi(s, nums.last(), voicing_end(s, nums.drop_last(), anchor)))
    }
}

/// Whether every step of resolving a sequence of numerals from `anchor`
/// succeeds, each step anchored at the previous result.
pub open spec fn voicing_ok(s: Scale, nums: Seq<ArabicNum>, anchor: Note) -> bool
    decreases nums.len(),
{
    nums.len() == 0 || (voicing_ok(s, nums.drop_last(), anchor) && step_ok(
        s,
        nums.last(),
        voicing_end(s, nums.drop_last(), anchor),
    ))
}

/// The notes produced by resolving a sequence of numerals from `anchor`,
/// in order.
pub open spec fn voicing_notes(s: Scale, nums: Seq<ArabicNum>, anchor: Note) -> Seq<Note>
    decreases nums.len(),
{
    if nums.len() == 0 {
        Seq::empty()
    } else {
        voicing_notes(s, nums.drop_last(), anchor).push(
            note_of_midi(resolve_midi(s, nums.last(), voicing_end(s, nums.drop_last(), anchor))),
        )
    }
}

/// Structure of a successful voicing: one note per numeral, every note in
/// the MIDI span at or above the anchor, the sequence non-descending, and
/// the final anchor equal to the last note.
pub proof fn lemma_voicing_props(s: Scale, nums: Seq<ArabicNum>, anchor: Note)
    requires
        voicing_ok(s, nums, anchor),
    ensures
        voicing_notes(s, nums, anchor).len() == nums.len(),
        nums.len() == 0 ==> voicing_end(s, nums, anchor) == anchor,
        nums.len() > 0 ==> voicing_end(s, nums, anchor) == voicing_notes(s, nums, anchor).last(),
        anchor.midi() <= voicing_end(s, nums, anchor).midi(),
        forall|i: int|
            0 <= i < nums.len() ==> (#[trigger] voicing_notes(s, nums, anchor)[i]).in_midi_range(),
        forall|i: int|
            0 <= i < nums.len() ==> anchor.midi() <= (#[trigger] voicing_notes(
                s,
                nums,
                anchor,
            )[i]).midi(),
        forall|i: int|
            0 <= i < nums.len() - 1 ==> (#[trigger] voicing_notes(s, nums, anchor)[i]).midi()
                <= voicing_notes(s, nums, anchor)[i + 1].midi(),
    decreases nums.len(),
{
    if nums.len() > 0 {
        let pre = nums.drop_last();
        lemma_voicing_props(s, pre, anchor);
        let p = voicing_end(s, pre, anchor);
        lemma_resolve_bounds(s, nums.last(), p);
        let ns = voicing_notes(s, nums, anchor);
        let pres = voicing_notes(s, pre, anchor);
        assert(forall|i: int| 0 <= i < pre.len() ==> ns[i] == #[trigger] pres[i]);
    }
}

/// Every prefix of a successful voicing succeeds, and the next step after
/// a prefix succeeds from the prefix's final anchor.
pub proof fn lemma_voicing_ok_prefix(s: Scale, nums: Seq<ArabicNum>, anchor: Note, i: int)
    requires
        voicing_ok(s, nums, anchor),
        0 <= i <= nums.len(),
    ensures
        voicing_ok(s, nums.take(i), anchor),
        i < nums.len() ==> step_ok(s, nums[i], voicing_end(s, nums.take(i), anchor)),
    decreases nums.len() - i,
{
    if i == nums.len() {
        assert(nums.take(i) =~= nums);
    } else {
        lemma_voicing_ok_prefix(s, nums, anchor, i + 1);
        assert(nums.take(i + 1).drop_last() =~= nums.take(i));
        assert(nums.take(i + 1).last() == nums[i]);
    }
}

impl Scale {
    /// Given a vector of arabic numerals, the corresponding vector of notes
    /// from the scale: the first numeral resolves against the base note,
    /// each later numeral against the note before it, in ascending order,
    /// so the result is a unique, unambiguous, non-descending voicing.
    pub fn get_voicing(&self, voicing: &Vec<ArabicNum>) -> (r: Vec<Note>)
        requires
            voicing_ok(*self, voicing@, self.base_note),
        ensures
            r@ == voicing_notes(*self, voicing@, self.base_note),
            r@.len() == voicing@.len(),
            forall|i: int| 0 <= i < r@.len() ==> (#[trigger] r@[i]).in_midi_range(),
            forall|i: int| 0 <= i < r@.len() - 1 ==> (#[trigger] r@[i]).midi() <= r@[i + 1].midi(),
    {
        let mut voicing_notes_vec: Vec<Note> = Vec::new();
        let mut i: usize = 0;
        while i < voicing.len()
            invariant
                voicing_ok(*self, voicing@, self.base_note),
                i <= voicing@.len(),
                voicing_notes_vec@ == voicing_notes(
                    *self,
                    voicing@.take(i as int),
                    self.base_note,
                ),
                voicing_notes_vec@.len() == i,
            decreases voicing@.len() - i,
        {
            let ghost pre = voicing@.take(i as int);
            proof {
                lemma_voicing_ok_prefix(*self, voicing@, self.base_note, i as int);
                lemma_voicing_props(*self, pre, self.base_note);
            }
            let last_note: Note = if voicing_notes_vec.len() == 0 {
                self.base_note
            } else {
                voicing_notes_vec[voicing_notes_vec.len() - 1]
            };
            assert(last_note == voicing_end(*self, pre, self.base_note));
            let next = self.get_arabic_num(&voicing[i], &last_note);
            voicing_notes_vec.push(next);
            proof {
                assert(voicing@.take(i as int + 1).drop_last() =~= pre);
                assert(voicing@.take(i as int + 1).last() == voicing@[i as int]);
            }
            i += 1;
        }
        proof {
            assert(voicing@.take(voicing@.len() as int) =~= voicing@);
            lemma_voicing_props(*self, voicing@, self.base_note);
        }
        voicing_notes_vec
    }
}

/// A voicing is always non-descending: each resolved note sounds at or
/// above the one before it, and at or above the anchor.
pub proof fn lemma_voicing_nondescending(s: Scale, nums: Seq<ArabicNum>, anchor: Note)
    requires
        voicing_ok(s, nums, anchor),
    ensures
        forall|i: int|
            0 <= i < nums.len() - 1 ==> (#[trigger] voicing_notes(s, nums, anchor)[i]).midi()
                <= voicing_notes(s, nums, anchor)[i + 1].midi(),
        forall|i: int|
            0 <= i < nums.len() ==> anchor.midi() <= (#[trigger] voicing_notes(
                s,
                nums,
                anchor,
            )[i]).midi(),
{
    lemma_voicing_props(s, nums, anchor);
}

/// Degree 0 of any scale is the base note itself; degree 7 of a seven-tone
/// scale is the base note one octave up; and degree -1 of a major scale is
/// one half step below the base note.
pub proof fn lemma_degree_base_and_octave(s: Scale)
    requires
        has_formula(s.scale_type),
    ensures
        degree_offset(s.scale_type, 0) == 0,
        degree_note(s, 0) == s.base_note,
        degree_offset(s.scale_type, 7) == 12,
        degree_note(s, 7) == transposed(s.base_note, 12),
        s.scale_type == ScaleType::Major ==> degree_offset(s.scale_type, -1) == -1
            && degree_note(s, -1) == transposed(s.base_note, -1),
{
    lemma_formula_len(s.scale_type);
    vstd::arithmetic::div_mod::lemma_fundamental_div_mod_converse(0, 7, 0, 0);
    vstd::arithmetic::div_mod::lemma_fundamental_div_mod_converse(7, 7, 1, 0);
    vstd::arithmetic::div_mod::lemma_fundamental_div_mod_converse(-1, 7, -1, 6);
    crate::note::lemma_note_of_midi_of_note(s.base_note);
}

/// Walking a scale is strictly ascending: the half-step offset grows with
/// the degree, also across octave wrap boundaries, so `degree(s, d + 1)`
/// always sounds above `degree(s, d)`.
pub proof fn lemma_degree_monotonic(t: ScaleType, d: int)
    requires
        has_formula(t),
    ensures
        degree_offset(t, d) < degree_offset(t, d + 1),
{
    lemma_formula_len(t);
    let q = d / 7;
    let r = d % 7;
    vstd::arithmetic::div_mod::lemma_fundamental_div_mod(d, 7);
    if r < 6 {
        vstd::arithmetic::div_mod::lemma_fundamental_div_mod_converse(d + 1, 7, q, r + 1);
    } else {
        vstd::arithmetic::div_mod::lemma_fundamental_div_mod_converse(d + 1, 7, q + 1, 0);
    }
}

/// The resolved numeral lands at or above the preceding note, and less than
/// an octave above it; within the MIDI span whenever the step succeeds.
pub proof fn lemma_resolve_bounds(s: Scale, a: ArabicNum, preceding: Note)
    requires
        step_ok(s, a, preceding),
    ensures
        preceding.midi() <= resolve_midi(s, a, preceding) < preceding.midi() + 12,
        0 <= resolve_midi(s, a, preceding) <= 127,
        resolve_midi(s, a, preceding) % 12 == numeral_midi(s, a) % 12,
        note_of_midi(resolve_midi(s, a, preceding)).midi() == resolve_midi(s, a, preceding),
        note_of_midi(resolve_midi(s, a, preceding)).in_midi_range(),
{
    let pc = numeral_midi(s, a) % 12;
    assert(0 <= pc < 12);
    assert(0 <= preceding.name.chroma() < 12);
    crate::note::lemma_midi_of_note_of_midi(resolve_midi(s, a, preceding));
}

} // verus!
