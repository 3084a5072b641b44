//! The chord abstraction. Chords are defined relative to scale tones: each
//! quality maps to a fixed formula of arabic number tones of a major scale,
//! so a minor seventh's flat 3 and flat 7 are expressed as accidentals
//! against the root's major scale. One formula table and one resolution
//! algorithm then serve every chord quality.

use vstd::prelude::*;

use crate::note::{Note, Playable};
use crate::scale::{
    ArabicNum,
    Scale,
    ScaleType,
    voicing_end,
    voicing_notes,
    voicing_ok,
};

verus! {

/// The quality of a chord: major/minor/dominant sevenths, diminished and
/// augmented triads, and the major sixth.
#[derive(PartialEq, Eq, Structural, Debug, Clone, Copy, Hash)]
pub enum ChordType {
    Maj7,
    Min7,
    Dom7,
    Dim,
    Aug,
    Maj6,
}

/// The formula of a chord quality: the arabic number tones of a major
/// scale it sounds, in ascending order. Every formula has three or four
/// tones and starts on the root.
pub open spec fn chord_formula(t: ChordType) -> Seq<ArabicNum> {
    match t {
        ChordType::Maj7 => seq![
            ArabicNum::Natural(1),
            ArabicNum::Natural(3),
            ArabicNum::Natural(5),
            ArabicNum::Natural(7),
        ],
        ChordType::Min7 => seq![
            ArabicNum::Natural(1),
            ArabicNum::Flat(3),
            ArabicNum::Natural(5),
            ArabicNum::Flat(7),
        ],
        ChordType::Dom7 => seq![
            ArabicNum::Natural(1),
            ArabicNum::Natural(3),
            ArabicNum::Natural(5),
            ArabicNum::Flat(7),
        ],
        ChordType::Dim => seq![ArabicNum::Natural(1), ArabicNum::Flat(3), ArabicNum::Flat(5)],
        ChordType::Aug => seq![ArabicNum::Natural(1), ArabicNum::Natural(3), ArabicNum::Sharp(5)],
        ChordType::Maj6 => seq![
            ArabicNum::Natural(1),
            ArabicNum::Natural(3),
            ArabicNum::Natural(5),
            ArabicNum::Natural(6),
        ],
    }
}

/// The formula of a chord quality, as an executable vector.
fn chord_formula_vec(t: ChordType) -> (f: Vec<ArabicNum>)
    ensures
        f@ == chord_formula(t),
{
    match t {
        ChordType::Maj7 => {
            let f = vec![
                ArabicNum::Natural(1),
                ArabicNum::Natural(3),
                ArabicNum::Natural(5),
                ArabicNum::Natural(7),
            ];
            assert(f@ =~= chord_formula(t));
            f
        },
        ChordType::Min7 => {
            let f = vec![
                ArabicNum::Natural(1),
                ArabicNum::Flat(3),
                ArabicNum::Natural(5),
                ArabicNum::Flat(7),
            ];
            assert(f@ =~= chord_formula(t));
            f
        },
        ChordType::Dom7 => {
            let f = vec![
                ArabicNum::Natural(1),
                ArabicNum::Natural(3),
                ArabicNum::Natural(5),
                ArabicNum::Flat(7),
            ];
            assert(f@ =~= chord_formula(t));
            f
        },
        ChordType::Dim => {
            let f = vec![ArabicNum::Natural(1), ArabicNum::Flat(3), ArabicNum::Flat(5)];
            assert(f@ =~= chord_formula(t));
            f
        },
        ChordType::Aug => {
            let f = vec![ArabicNum::Natural(1), ArabicNum::Natural(3), ArabicNum::Sharp(5)];
            assert(f@ =~= chord_formula(t));
            f
        },
        ChordType::Maj6 => {
            let f = vec![
                ArabicNum::Natural(1),
                ArabicNum::Natural(3),
                ArabicNum::Natural(5),
                ArabicNum::Natural(6),
            ];
            assert(f@ =~= chord_formula(t));
            f
        },
    }
}

/// The chord formula rotated left by `k` positions: the tones before the
/// rotation point are appended at the end, preserving relative order — a
/// cyclic rotation that realizes the `k`-th inversion.
pub open spec fn rotated_formula(t: ChordType, k: int) -> Seq<ArabicNum> {
    let f = chord_formula(t);
    f.subrange(k, f.len() as int) + f.subrange(0, k)
}

/// A chord: a root note and a quality. The reference scale is the major
/// scale on the root, stored so it can resolve the formula's numerals; it
/// is purely an interval-resolution device, not the chord's harmonic
/// context.
#[derive(PartialEq, Eq, Structural, Debug, Clone, Copy)]
pub struct Chord {
    pub root: Note,
    pub chord_type: ChordType,
    pub ref_scale: Scale,
}

impl Chord {
    /// The reference scale is the major scale rooted at the chord's root.
    pub open spec fn wf(self) -> bool {
        self.ref_scale == (Scale { base_note: self.root, scale_type: ScaleType::Major })
    }

    /// Whether the voicing that starts at formula position `first_pos`
    /// resolves entirely within the MIDI span.
    pub open spec fn voicing_resolves(self, first_pos: int) -> bool {
        voicing_ok(self.ref_scale, rotated_formula(self.chord_type, first_pos), self.root)
    }

    /// The voicing that starts at formula position `first_pos`.
    pub open spec fn voicing_view(self, first_pos: int) -> Seq<Note> {
        voicing_notes(self.ref_scale, rotated_formula(self.chord_type, first_pos), self.root)
    }

    pub fn new(root: Note, chord_type: ChordType) -> (c: Chord)
        ensures
            c.root == root,
            c.chord_type == chord_type,
            c.wf(),
    {
        Chord { root, chord_type, ref_scale: Scale::new(root, ScaleType::Major) }
    }

    /// The voicing of the chord's inversion that starts at formula
    /// position `first_pos`: the formula is rotated left by `first_pos`,
    /// then resolved through the reference scale from the root upward,
    /// giving a non-descending sequence of as many notes as the formula
    /// has tones.
    pub fn get_voicing(&self, first_pos: usize) -> (r: Vec<Note>)
        requires
            self.wf(),
            first_pos < chord_formula(self.chord_type).len(),
            self.voicing_resolves(first_pos as int),
        ensures
            r@ == self.voicing_view(first_pos as int),
            r@.len() == chord_formula(self.chord_type).len(),
            forall|i: int| 0 <= i < r@.len() ==> (#[trigger] r@[i]).in_midi_range(),
            forall|i: int| 0 <= i < r@.len() - 1 ==> (#[trigger] r@[i]).midi() <= r@[i + 1].midi(),
    {
        let formula = chord_formula_vec(self.chord_type);
        let mut rotated: Vec<ArabicNum> = Vec::new();
        let mut i: usize = first_pos;
        while i < formula.len()
            invariant
                first_pos <= i <= formula@.len(),
                formula@ == chord_formula(self.chord_type),
                rotated@ == formula@.subrange(first_pos as int, i as int),
            decreases formula@.len() - i,
        {
            rotated.push(formula[i]);
            assert(rotated@ =~= formula@.subrange(first_pos as int, i as int + 1));
            i += 1;
        }
        let mut j: usize = 0;
        while j < first_pos
            invariant
                j <= first_pos <= formula@.len(),
                formula@ == chord_formula(self.chord_type),
                rotated@ == formula@.subrange(first_pos as int, formula@.len() as int)
                    + formula@.subrange(0, j as int),
            decreases first_pos - j,
        {
            rotated.push(formula[j]);
            assert(rotated@ =~= formula@.subrange(first_pos as int, formula@.len() as int)
                + formula@.subrange(0, j as int + 1));
            j += 1;
        }
        assert(rotated@ == rotated_formula(self.chord_type, first_pos as int));
        self.ref_scale.get_voicing(&rotated)
    }

    /// Like `get_voicing`, deciding validity at run time: `None` when the
    /// requested inversion start is at or past the end of the formula, or
    /// when the voicing would leave the MIDI span.
    pub fn get_voicing_checked(&self, first_pos: usize) -> (r: Option<Vec<Note>>)
        requires
            self.wf(),
        ensures
            match r {
                Some(v) => first_pos < chord_formula(self.chord_type).len()
                    && self.voicing_resolves(first_pos as int) && v@ == self.voicing_view(
                    first_pos as int,
                ),
                None => !(first_pos < chord_formula(self.chord_type).len()
                    && self.voicing_resolves(first_pos as int)),
            },
    {
        let formula = chord_formula_vec(self.chord_type);
        if first_pos >= formula.len() {
            return None;
        }
        let mut rotated: Vec<ArabicNum> = Vec::new();
        let mut i: usize = first_pos;
        while i < formula.len()
            invariant
                first_pos <= i <= formula@.len(),
                formula@ == chord_formula(self.chord_type),
                rotated@ == formula@.subrange(first_pos as int, i as int),
            decreases formula@.len() - i,
        {
            rotated.push(formula[i]);
            assert(rotated@ =~= formula@.subrange(first_pos as int, i as int + 1));
            i += 1;
        }
        let mut j: usize = 0;
        while j < first_pos
            invariant
                j <= first_pos <= formula@.len(),
                formula@ == chord_formula(self.chord_type),
                rotated@ == formula@.subrange(first_pos as int, formula@.len() as int)
                    + formula@.subrange(0, j as int),
            decreases first_pos - j,
        {
            rotated.push(formula[j]);
            assert(rotated@ =~= formula@.subrange(first_pos as int, formula@.len() as int)
                + formula@.subrange(0, j as int + 1));
            j += 1;
        }
        assert(rotated@ == rotated_formula(self.chord_type, first_pos as int));
        let mut cur: Note = self.root;
        let mut k: usize = 0;
        while k < rotated.len()
            invariant
                self.wf(),
                k <= rotated@.len(),
                rotated@ == rotated_formula(self.chord_type, first_pos as int),
                voicing_ok(self.ref_scale, rotated@.take(k as int), self.root),
                cur == voicing_end(self.ref_scale, rotated@.take(k as int), self.root),
            decreases rotated@.len() - k,
        {
            let ghost pre = rotated@.take(k as int);
            if !crate::scale::step_check(&self.ref_scale, &rotated[k], &cur) {
                proof {
                    if voicing_ok(self.ref_scale, rotated@, self.root) {
                        crate::scale::lemma_voicing_ok_prefix(
                            self.ref_scale,
                            rotated@,
                            self.root,
                            k as int,
                        );
                    }
                }
                return None;
            }
            cur = self.ref_scale.get_arabic_num(&rotated[k], &cur);
            proof {
                assert(rotated@.take(k as int + 1).drop_last() =~= pre);
                assert(rotated@.take(k as int + 1).last() == rotated@[k as int]);
            }
            k += 1;
        }
        proof {
            assert(rotated@.take(rotated@.len() as int) =~= rotated@);
        }
        Some(self.get_voicing(first_pos))
    }
}

/// A chord is playable as the MIDI numbers of its root-position voicing.
impl Playable for Chord {
    open spec fn playable_wf(&self) -> bool {
        self.wf() && self.voicing_resolves(0)
    }

    open spec fn play_view(&self) -> Seq<i8> {
        let ns = self.voicing_view(0);
        Seq::new(ns.len(), |i: int| ns[i].midi() as i8)
    }

    fn play(&self) -> (r: Vec<i8>) {
        let v = self.get_voicing(0);
        let r = v.play();
        assert(r@ =~= self.play_view());
        r
    }
}

} // verus!
