//! Tests of the composition data model and of the lowering to
//! SuperCollider text.

use dawpl::arrangement::Arrangement;
use dawpl::chord::{Chord, ChordType};
use dawpl::clip::Clip;
use dawpl::duration::{duration_of_letter, Duration};
use dawpl::note::{Name, Note, Playable};
use dawpl::track::Track;
use dawpl::translate::{
    arrangement_to_super_collider, clip_to_super_collider, track_to_super_collider,
};

fn preamble() -> String {
    "(\nSynthDef.new(\\sine, {\n    arg freq=440, atk=0.005, rel=0.3, amp=1, pan=0;\n    var sig, env;\n    sig = SinOsc.ar(freq);\n    env = EnvGen.kr(Env.new([0, 1, 0], [atk, rel], [1, -1]), doneAction:2);\n    sig = Pan2.ar(sig, pan, amp);\n    sig = sig * env;\n    Out.ar(0, sig);\n}).add;\n)\n"
        .to_string()
}

#[test]
fn clip_translation_tests() {
    let ii_chord = Chord::new(Note::new(Name::D, 4), ChordType::Min7);
    let ii_chord_clip = Clip::Instrument(
        "v1".into(),
        "sine".into(),
        vec![Some(ii_chord.play()), Some(ii_chord.play())],
        vec![Duration(16), Duration(16)],
    );
    let expected_ii = "v1 = Pbind(\n    \\instrument, \\sine,\n    \\dur, Pseq([1.0, 1.0]),\n    \\midinote, Pseq([[62, 65, 69, 72],[62, 65, 69, 72],]),\n);\n";
    let clip_output = clip_to_super_collider(&ii_chord_clip);
    assert_eq!(expected_ii, clip_output);
}

#[test]
fn track_translation_tests() {
    let t = Track::new("t1".into(), vec!["v1".into(), "v2".into()]);
    println!("Track output: {}", track_to_super_collider(&t));
}

#[test]
fn arrangement_translation_tests() {
    let ii_chord = Chord::new(Note::parse("D4").unwrap(), ChordType::Min7);
    let ii_chord_clip = Clip::Instrument(
        "v1".into(),
        "sine".into(),
        vec![Some(ii_chord.play()), Some(ii_chord.play())],
        vec![Duration(16), Duration(16)],
    );
    let v_chord = Chord::new(Note::new(Name::G, 3), ChordType::Dom7);
    let v_chord_clip = Clip::Instrument(
        "v2".into(),
        "sine".into(),
        vec![Some(v_chord.play()), Some(v_chord.play())],
        vec![Duration(16), Duration(16)],
    );
    let t = Track::new("t1".into(), vec!["v1".into(), "v2".into()]);
    let arr: Arrangement = Arrangement::new(vec![t], vec![ii_chord_clip, v_chord_clip]);
    println!("Arrangement output: {}", arrangement_to_super_collider(&arr));
}

#[test]
fn full_test() {
    let ii_chord = Chord::new(Note::parse("D4").unwrap(), ChordType::Min7).play();
    let v_chord = Chord::new(Note::parse("G3").unwrap(), ChordType::Dom7).play();
    let i_chord = Chord::new(Note::parse("C4").unwrap(), ChordType::Maj7).play();
    let mut melody_notes: Vec<i8> = Vec::new();
    melody_notes.extend(&ii_chord);
    melody_notes.extend(&v_chord);
    melody_notes.extend(&i_chord);
    let whole_rhythm: Vec<Duration> = ['W', 'W', 'W']
        .iter()
        .map(|c| duration_of_letter(*c))
        .collect();
    let quarter_rhythm: Vec<Duration> = ['Q'; 12].iter().map(|c| duration_of_letter(*c)).collect();
    let progression_clip = Clip::Instrument(
        "prog".into(),
        "sine".into(),
        vec![Some(ii_chord), Some(v_chord), Some(i_chord)],
        whole_rhythm,
    );
    let melody_clip = Clip::Instrument(
        "melody".into(),
        "sine".into(),
        melody_notes.into_iter().map(|n| Some(vec![n])).collect(),
        quarter_rhythm,
    );
    let arr: Arrangement = Arrangement::new(
        vec![
            Track::new("progTrack".into(), vec!["prog".into()]),
            Track::new("melTrack".into(), vec!["melody".into()]),
        ],
        vec![progression_clip, melody_clip],
    );
    println!("Arrangement output: {}", arrangement_to_super_collider(&arr));
}

#[test]
fn single_note_clip_translation_tests() {
    let clip = Clip::Instrument(
        "v1".into(),
        "sine".into(),
        vec![Some(vec![62, 65, 69, 72])],
        vec![Duration(16)],
    );
    let expected = "v1 = Pbind(\n    \\instrument, \\sine,\n    \\dur, Pseq([1.0]),\n    \\midinote, Pseq([[62, 65, 69, 72],]),\n);\n";
    assert_eq!(expected, clip_to_super_collider(&clip));
}

#[test]
fn rest_and_negative_clip_translation_tests() {
    let clip = Clip::Instrument(
        "v9".into(),
        "sine".into(),
        vec![None, Some(vec![-5]), Some(vec![0, 127])],
        vec![Duration(4), Duration(2), Duration(1)],
    );
    let expected = "v9 = Pbind(\n    \\instrument, \\sine,\n    \\dur, Pseq([0.25, 0.125, 0.0625]),\n    \\midinote, Pseq([note:Rest(),[-5],[0, 127],]),\n);\n";
    assert_eq!(expected, clip_to_super_collider(&clip));
}

#[test]
fn empty_clip_translation_tests() {
    let clip = Clip::Empty("r1".into(), Duration(8));
    assert_eq!("r1 = (note:Rest(), dur:0.5);\n", clip_to_super_collider(&clip));
    let long_rest = Clip::Empty("r2".into(), Duration(20));
    assert_eq!("r2 = (note:Rest(), dur:1.25);\n", clip_to_super_collider(&long_rest));
    let no_rest = Clip::Empty("r3".into(), Duration(0));
    assert_eq!("r3 = (note:Rest(), dur:0.0);\n", clip_to_super_collider(&no_rest));
    let dotted = Clip::Empty("r4".into(), Duration(3));
    assert_eq!("r4 = (note:Rest(), dur:0.1875);\n", clip_to_super_collider(&dotted));
    let two_bars = Clip::Empty("r5".into(), Duration(32));
    assert_eq!("r5 = (note:Rest(), dur:2.0);\n", clip_to_super_collider(&two_bars));
}

#[test]
fn empty_arrangement_translation_tests() {
    let arr = Arrangement::new(vec![], vec![]);
    let expected = format!(
        "{}(\nvar ;\n[].do({{arg currTrack; currTrack.play}})\n)",
        preamble()
    );
    assert_eq!(expected, arrangement_to_super_collider(&arr));
}

#[test]
fn file_clip_translation_tests() {
    let clip = Clip::File("f1".into(), "/audio/riff.wav".into());
    assert_eq!(
        "f1 = nil; // unimplemented: audio file clip\n",
        clip_to_super_collider(&clip)
    );
}

#[test]
fn track_translation_exact_tests() {
    let t = Track::new("t1".into(), vec!["v1".into(), "v2".into()]);
    assert_eq!(
        "t1 = Pseq([v1,v2,]).do({arg currClip; currClip.play});\n",
        track_to_super_collider(&t)
    );
    let empty = Track::new("t2".into(), vec![]);
    assert_eq!(
        "t2 = Pseq([]).do({arg currClip; currClip.play});\n",
        track_to_super_collider(&empty)
    );
}

#[test]
fn arrangement_names_tests() {
    let c1 = Clip::Empty("c1".into(), Duration(16));
    let c2 = Clip::Empty("c2".into(), Duration(8));
    let t1 = Track::new("t1".into(), vec!["c1".into(), "c2".into()]);
    let arr = Arrangement::new(vec![t1], vec![c1, c2]);
    assert_eq!(
        arr.get_names(),
        vec!["c1".to_string(), "c2".to_string(), "t1".to_string()]
    );
}

#[test]
fn arrangement_translation_exact_tests() {
    let clip = Clip::Empty("r1".into(), Duration(16));
    let track = Track::new("t1".into(), vec!["r1".into()]);
    let arr = Arrangement::new(vec![track], vec![clip]);
    let expected = format!(
        "{}(\nvar r1,t1;\nr1 = (note:Rest(), dur:1.0);\nt1 = Pseq([r1,]).do({{arg currClip; currClip.play}});\n[t1,].do({{arg currTrack; currTrack.play}})\n)",
        preamble()
    );
    assert_eq!(expected, arrangement_to_super_collider(&arr));
}
