//! Tests of the pitch model, the scale engine and the chord engine.

use dawpl::chord::{Chord, ChordType};
use dawpl::duration::{duration_of_letter, Beat, Duration};
use dawpl::note::{Name, Note, ParseError, Playable};
use dawpl::scale::{ArabicNum, Scale, ScaleType};
use dawpl::track::Track;

#[test]
fn note_tests() {
    let middle_c = Note::new(Name::C, 4);
    let b_natural = middle_c.flat();
    let d_natural = Note::new(Name::D, 4);
    let e_flat = d_natural.sharp();
    let e_natural = Note::new(Name::E, 4);
    assert_eq!(e_flat, e_natural.flat());
    assert_eq!(b_natural, d_natural.flat().flat().flat());
}

#[test]
fn scale_tests() {
    let c_major = Scale::new(Note::new(Name::C, 4), ScaleType::Major);
    assert_eq!(c_major.get_degree(2), Note::new(Name::E, 4));
    assert_eq!(c_major.get_degree(3), Note::new(Name::F, 4));
    assert_eq!(c_major.get_degree(4), Note::new(Name::G, 4));
    assert_eq!(c_major.get_degree(5), Note::new(Name::A, 4));
    assert_eq!(c_major.get_degree(0), Note::new(Name::C, 4));
    assert_eq!(c_major.get_degree(-1), Note::new(Name::B, 3));
    assert_eq!(c_major.get_degree(7), Note::new(Name::C, 5));
    assert_eq!(c_major.get_degree(8), Note::new(Name::D, 5));
}

#[test]
fn chord_tests() {
    let c_maj7 = Chord::new(Note::new(Name::C, 4), ChordType::Maj7);
    let c_maj7_notes = c_maj7.get_voicing(0);
    assert_eq!(c_maj7_notes.len(), 4);
    assert_eq!(c_maj7_notes[0], Note::new(Name::C, 4));
    assert_eq!(c_maj7_notes[1], Note::new(Name::E, 4));
    assert_eq!(c_maj7_notes[2], Note::new(Name::G, 4));
    assert_eq!(c_maj7_notes[3], Note::new(Name::B, 4));
}

#[test]
fn syntax_tests() {
    assert_eq!(Note::parse("C4").unwrap(), Note::new(Name::C, 4));
    assert_eq!(
        Chord::new(Note::parse("C4").unwrap(), ChordType::Maj7),
        Chord::new(Note::new(Name::C, 4), ChordType::Maj7)
    );
    let rhythm: Vec<f64> = ['W', 'Q', 'W', 'H']
        .iter()
        .map(|c| duration_of_letter(*c).0 as f64 / 16.0)
        .collect();
    assert_eq!(rhythm, vec![1.0, 0.25, 1.0, 0.5]);
    let track = Track::new(
        "track1".into(),
        vec!["clip1".into(), "clip2".into()],
    );
    println!("track: {:?}", track);
    assert_eq!(
        track,
        Track::new("track1".into(), vec!["clip1".into(), "clip2".into()])
    );
    let play_output: Vec<Option<Vec<i8>>> = vec![
        Some(Note::parse("C4").unwrap().play()),
        Some(Chord::new(Note::parse("C4").unwrap(), ChordType::Maj7).play()),
        None,
    ];
    println!("Play output: {:?}", play_output);
    assert_eq!(
        play_output,
        vec![Some(vec![60]), Some(vec![60, 64, 67, 71]), None]
    );
}

#[test]
fn midi_mapping_tests() {
    assert_eq!(Note::new(Name::C, 4).get_midi_value(), 60);
    assert_eq!(Note::new(Name::C, -1).get_midi_value(), 0);
    assert_eq!(Note::new(Name::G, 9).get_midi_value(), 127);
    assert_eq!(Note::from_midi(0), Note::new(Name::C, -1));
    assert_eq!(Note::from_midi(61), Note::new(Name::Db, 4));
    assert_eq!(Note::from_midi(127), Note::new(Name::G, 9));
}

#[test]
fn transpose_round_trip_tests() {
    let e4 = Note::new(Name::E, 4);
    assert_eq!(e4.add_half_steps(7).add_half_steps(-7), e4);
    assert_eq!(e4.add_half_steps(-30).add_half_steps(30), e4);
    assert_eq!(e4.add_whole_steps(1), Note::new(Name::Gb, 4));
    assert_eq!(e4.add_whole_steps(-1), Note::new(Name::D, 4));
}

#[test]
fn sharp_flat_round_trip_tests() {
    let a3 = Note::new(Name::A, 3);
    assert_eq!(a3.sharp().flat(), a3);
    assert_eq!(a3.flat().sharp(), a3);
    let eb5 = Note::new(Name::Eb, 5);
    assert_eq!(eb5.sharp().flat(), eb5);
    assert_eq!(eb5.flat().sharp(), eb5);
}

#[test]
fn parse_note_tests() {
    assert_eq!(Note::parse("Db4").unwrap(), Note::new(Name::Db, 4));
    assert_eq!(Note::parse("Cs4").unwrap(), Note::new(Name::Db, 4));
    assert_eq!(Note::parse("Cb4").unwrap(), Note::new(Name::B, 3));
    assert_eq!(Note::parse("G9").unwrap(), Note::new(Name::G, 9));
    assert_eq!(Note::parse(""), Err(ParseError::WrongLength));
    assert_eq!(Note::parse("C"), Err(ParseError::WrongLength));
    assert_eq!(Note::parse("Cs44"), Err(ParseError::WrongLength));
    assert_eq!(Note::parse("H4"), Err(ParseError::UnknownLetter));
    assert_eq!(Note::parse("Cx4"), Err(ParseError::UnknownAccidental));
    assert_eq!(Note::parse("CX"), Err(ParseError::BadOctave));
    assert_eq!(Note::parse("Csz"), Err(ParseError::BadOctave));
    assert_eq!(Note::parse("Bs9"), Err(ParseError::OutOfRange));
}

#[test]
fn parse_midi_round_trip_tests() {
    // A parsed token, re-rendered as MIDI and mapped back, yields the
    // original flat-spelled note.
    for token in ["C4", "Cs4", "Db4", "Fb2", "Gs7", "B0"] {
        let note = Note::parse(token).unwrap();
        let midi = note.get_midi_value();
        assert_eq!(Note::from_midi(midi), note);
    }
}

#[test]
fn scale_formula_tests() {
    let g_mixolydian = Scale::new(Note::new(Name::G, 3), ScaleType::Mixolydian);
    assert_eq!(g_mixolydian.get_degree(6), Note::new(Name::F, 4));
    let d_dorian = Scale::new(Note::new(Name::D, 4), ScaleType::Dorian);
    assert_eq!(d_dorian.get_degree(2), Note::new(Name::F, 4));
    assert_eq!(d_dorian.get_degree(6), Note::new(Name::C, 5));
}

#[test]
fn arabic_num_tests() {
    let c_major = Scale::new(Note::new(Name::C, 4), ScaleType::Major);
    let base = Note::new(Name::C, 4);
    let fifth = c_major.get_arabic_num(&ArabicNum::Natural(5), &base);
    assert_eq!(fifth, Note::new(Name::G, 4));
    // The next matching pitch class at or above the anchor bumps an octave.
    let third_above_fifth = c_major.get_arabic_num(&ArabicNum::Natural(3), &fifth);
    assert_eq!(third_above_fifth, Note::new(Name::E, 5));
    let flat_third = c_major.get_arabic_num(&ArabicNum::Flat(3), &base);
    assert_eq!(flat_third, Note::new(Name::Eb, 4));
    let sharp_five = c_major.get_arabic_num(&ArabicNum::Sharp(5), &base);
    assert_eq!(sharp_five, Note::new(Name::Ab, 4));
}

#[test]
fn voicing_nondescending_tests() {
    let c_major = Scale::new(Note::new(Name::C, 4), ScaleType::Major);
    let numerals = vec![
        ArabicNum::Natural(3),
        ArabicNum::Natural(7),
        ArabicNum::Flat(3),
        ArabicNum::Natural(1),
    ];
    let notes = c_major.get_voicing(&numerals);
    assert_eq!(notes.len(), numerals.len());
    for i in 0..notes.len() - 1 {
        assert!(notes[i].get_midi_value() <= notes[i + 1].get_midi_value());
    }
    let g3_dom7 = Chord::new(Note::new(Name::G, 3), ChordType::Dom7);
    for inversion in 0..4 {
        let voicing = g3_dom7.get_voicing(inversion);
        for i in 0..voicing.len() - 1 {
            assert!(voicing[i].get_midi_value() <= voicing[i + 1].get_midi_value());
        }
    }
}

#[test]
fn chord_formula_tests() {
    let root = Note::new(Name::C, 4);
    assert_eq!(Chord::new(root, ChordType::Maj7).play(), vec![60, 64, 67, 71]);
    assert_eq!(Chord::new(root, ChordType::Min7).play(), vec![60, 63, 67, 70]);
    assert_eq!(Chord::new(root, ChordType::Dom7).play(), vec![60, 64, 67, 70]);
    assert_eq!(Chord::new(root, ChordType::Dim).play(), vec![60, 63, 66]);
    assert_eq!(Chord::new(root, ChordType::Aug).play(), vec![60, 64, 68]);
    assert_eq!(Chord::new(root, ChordType::Maj6).play(), vec![60, 64, 67, 69]);
}

#[test]
fn chord_inversion_tests() {
    let c_maj7 = Chord::new(Note::new(Name::C, 4), ChordType::Maj7);
    let first_inversion = c_maj7.get_voicing(1);
    assert_eq!(first_inversion[0], Note::new(Name::E, 4));
    assert_eq!(first_inversion[1], Note::new(Name::G, 4));
    assert_eq!(first_inversion[2], Note::new(Name::B, 4));
    assert_eq!(first_inversion[3], Note::new(Name::C, 5));
}

#[test]
fn inversion_bounds_tests() {
    // An inversion start at or past the formula length is rejected.
    let c_maj7 = Chord::new(Note::new(Name::C, 4), ChordType::Maj7);
    assert!(c_maj7.get_voicing_checked(4).is_none());
    assert!(c_maj7.get_voicing_checked(17).is_none());
    let in_range = c_maj7.get_voicing_checked(0).unwrap();
    assert_eq!(in_range, c_maj7.get_voicing(0));
    let dim = Chord::new(Note::new(Name::D, 4), ChordType::Dim);
    assert!(dim.get_voicing_checked(3).is_none());
    assert!(dim.get_voicing_checked(2).is_some());
    // A voicing that would climb past the top of the MIDI span is also
    // rejected rather than wrapped.
    let top = Chord::new(Note::new(Name::G, 9), ChordType::Maj7);
    assert!(top.get_voicing_checked(0).is_none());
}

#[test]
fn beat_duration_tests() {
    assert_eq!(Beat::W.duration(), Duration(16));
    assert_eq!(Beat::H.duration(), Duration(8));
    assert_eq!(Beat::Q.duration(), Duration(4));
    assert_eq!(Beat::E.duration(), Duration(2));
    assert_eq!(Beat::S.duration(), Duration(1));
    assert_eq!(duration_of_letter('W'), Duration(16));
    assert_eq!(duration_of_letter('S'), Duration(1));
    // An unrecognized letter maps to the zero duration, deliberately.
    assert_eq!(duration_of_letter('Z'), Duration(0));
    assert_eq!(duration_of_letter('w'), Duration(0));
}

#[test]
fn track_append_tests() {
    let mut track = Track::new("t1".into(), vec!["v1".into()]);
    track.append_clip("v2".into());
    assert_eq!(track.get_name().as_str(), "t1");
    assert_eq!(track.get_names_ref(), &vec!["v1".to_string(), "v2".to_string()]);
}
