//! Lowering of the composition data model to a SuperCollider program: one
//! pure function per entity, each a straight structural fold producing one
//! output string against a fixed textual grammar. There are no passes and
//! no intermediate representation; track-to-clip references are emitted by
//! name, without checking them against the arrangement's clip pool.

use vstd::prelude::*;

use crate::arrangement::Arrangement;
use crate::clip::Clip;
use crate::duration::Duration;
use crate::render::{append_duration, append_i8, duration_text, int_digits};
use crate::track::Track;

verus! {

/// The fixed instrument-setup preamble emitted once per arrangement: a
/// single sine synth definition, constant text.
pub open spec fn instruments_preamble() -> Seq<char> {
    "(\nSynthDef.new(\\sine, {\n    arg freq=440, atk=0.005, rel=0.3, amp=1, pan=0;\n    var sig, env;\n    sig = SinOsc.ar(freq);\n    env = EnvGen.kr(Env.new([0, 1, 0], [atk, rel], [1, -1]), doneAction:2);\n    sig = Pan2.ar(sig, pan, amp);\n    sig = sig * env;\n    Out.ar(0, sig);\n}).add;\n)\n"@
}

/// The members of one simultaneous-pitch group, separated by `, `.
pub open spec fn midi_group_items(g: Seq<i8>) -> Seq<char>
    decreases g.len(),
{
    if g.len() == 0 {
        Seq::empty()
    } else if g.len() == 1 {
        int_digits(g[0] as int)
    } else {
        midi_group_items(g.drop_last()) + ", "@ + int_digits(g.last() as int)
    }
}

/// One entry of the midinote list: a bracketed simultaneous-pitch group,
/// or a rest marker for a `None` entry; either way followed by a comma.
pub open spec fn midi_entry_text(e: Option<Seq<i8>>) -> Seq<char> {
    match e {
        Some(g) => "["@ + midi_group_items(g) + "]"@ + ","@,
        None => "note:Rest(),"@,
    }
}

/// All entries of the midinote list, in order.
pub open spec fn midi_entries_text(notes: Seq<Option<Seq<i8>>>) -> Seq<char>
    decreases notes.len(),
{
    if notes.len() == 0 {
        Seq::empty()
    } else {
        midi_entries_text(notes.drop_last()) + midi_entry_text(notes.last())
    }
}

/// The raw duration values, separated by `, `.
pub open spec fn duration_items(ds: Seq<Duration>) -> Seq<char>
    decreases ds.len(),
{
    if ds.len() == 0 {
        Seq::empty()
    } else if ds.len() == 1 {
        duration_text(ds[0].0 as nat)
    } else {
        duration_items(ds.drop_last()) + ", "@ + duration_text(ds.last().0 as nat)
    }
}

/// The declaration of an instrument clip: a parallel-sequence declaration
/// of durations and of simultaneous-pitch groups.
pub open spec fn instrument_clip_text(
    name: Seq<char>,
    instrument: Seq<char>,
    notes: Seq<Option<Seq<i8>>>,
    durations: Seq<Duration>,
) -> Seq<char> {
    name + " = Pbind(\n    \\instrument, \\"@ + instrument + ",\n    \\dur, Pseq(["@
        + duration_items(durations) + "]),\n    \\midinote, Pseq(["@ + midi_entries_text(notes)
        + "]),\n);\n"@
}

/// The declaration of an empty clip: a rest carrying just its duration.
pub open spec fn empty_clip_text(name: Seq<char>, d: Duration) -> Seq<char> {
    name + " = (note:Rest(), dur:"@ + duration_text(d.0 as nat) + ");\n"@
}

/// The declaration of an audio-file clip. Its intended output format is
/// an open extension point, so a deterministic placeholder is emitted,
/// flagged as unimplemented rather than left misleadingly empty.
pub open spec fn file_clip_text(name: Seq<char>) -> Seq<char> {
    name + " = nil; // unimplemented: audio file clip\n"@
}

/// The declaration a clip lowers to.
pub open spec fn clip_text(c: Clip) -> Seq<char> {
    match c {
        Clip::Instrument(name, instrument, notes, durations) => instrument_clip_text(
            name@,
            instrument@,
            notes.deep_view(),
            durations@,
        ),
        Clip::File(name, _) => file_clip_text(name@),
        Clip::Empty(name, d) => empty_clip_text(name@, d),
    }
}

/// The clip names referenced by a track, each followed by a comma.
pub open spec fn clip_name_items(names: Seq<Seq<char>>) -> Seq<char>
    decreases names.len(),
{
    if names.len() == 0 {
        Seq::empty()
    } else {
        clip_name_items(names.drop_last()) + names.last() + ","@
    }
}

/// The declaration a track lowers to: a sequenced playback of the clips
/// it names, in list order, with no existence check against the clip pool.
pub open spec fn track_text(t: Track) -> Seq<char> {
    t.name@ + " = Pseq(["@ + clip_name_items(t.clip_names.deep_view())
        + "]).do({arg currClip; currClip.play});\n"@
}

/// The names declared by the arrangement's variable line, separated by
/// commas.
pub open spec fn var_decl_items(names: Seq<Seq<char>>) -> Seq<char>
    decreases names.len(),
{
    if names.len() == 0 {
        Seq::empty()
    } else if names.len() == 1 {
        names[0]
    } else {
        var_decl_items(names.drop_last()) + ","@ + names.last()
    }
}

/// All clip declarations of an arrangement, in container order.
pub open spec fn clip_decls_text(clips: Seq<Clip>) -> Seq<char>
    decreases clips.len(),
{
    if clips.len() == 0 {
        Seq::empty()
    } else {
        clip_decls_text(clips.drop_last()) + clip_text(clips.last())
    }
}

/// All track declarations of an arrangement, in container order.
pub open spec fn track_decls_text(tracks: Seq<Track>) -> Seq<char>
    decreases tracks.len(),
{
    if tracks.len() == 0 {
        Seq::empty()
    } else {
        track_decls_text(tracks.drop_last()) + track_text(tracks.last())
    }
}

/// The names of all tracks, each followed by a comma, in container order.
pub open spec fn track_name_items(tracks: Seq<Track>) -> Seq<char>
    decreases tracks.len(),
{
    if tracks.len() == 0 {
        Seq::empty()
    } else {
        track_name_items(tracks.drop_last()) + tracks.last().name@ + ","@
    }
}

/// The whole program an arrangement lowers to: the instrument preamble,
/// then one block declaring every clip and track name, every clip, every
/// track, and a final statement playing all tracks together.
pub open spec fn arrangement_text(a: Arrangement) -> Seq<char> {
    instruments_preamble() + "(\n"@ + "var "@ + var_decl_items(a.names_view()) + ";"@ + "\n"@
        + clip_decls_text(a.clips@) + track_decls_text(a.tracks@) + "["@ + track_name_items(
        a.tracks@,
    ) + "].do({arg currTrack; currTrack.play})\n)"@
}

/// Lowers a single clip to its SuperCollider declaration. An instrument
/// clip must be well formed: sounding a different number of pitch groups
/// than durations is a programmer error in caller-constructed data, not a
/// recoverable condition.
pub fn clip_to_super_collider(clip: &Clip) -> (r: String)
    requires
        clip.wf(),
    ensures
        r@ == clip_text(*clip),
{
    match clip {
        Clip::Instrument(name, instrument, notes, durations) => {
            let mut out = String::new();
            out.append(name.as_str());
            out.append(" = Pbind(\n    \\instrument, \\");
            out.append(instrument.as_str());
            out.append(",\n    \\dur, Pseq([");
            let ghost pre_durs = out@;
            let mut i: usize = 0;
            while i < durations.len()
                invariant
                    i <= durations@.len(),
                    out@ == pre_durs + duration_items(durations@.take(i as int)),
                decreases durations@.len() - i,
            {
                if i > 0 {
                    out.append(", ");
                }
                append_duration(&mut out, durations[i]);
                proof {
                    assert(durations@.take(i as int + 1).drop_last() =~= durations@.take(i as int));
                    assert(durations@.take(i as int + 1).last() == durations@[i as int]);
                    if i == 0 {
                        assert(durations@.take(1)[0] == durations@[0]);
                    }
                    assert(out@ =~= pre_durs + duration_items(durations@.take(i as int + 1)));
                }
                i += 1;
            }
            proof {
                assert(durations@.take(durations@.len() as int) =~= durations@);
            }
            out.append("]),\n    \\midinote, Pseq([");
            let ghost pre_notes = out@;
            let mut j: usize = 0;
            while j < notes.len()
                invariant
                    j <= notes@.len(),
                    out@ == pre_notes + midi_entries_text(notes.deep_view().take(j as int)),
                decreases notes@.len() - j,
            {
                match &notes[j] {
                    Some(g) => {
                        out.append("[");
                        let ghost pre_group = out@;
                        let mut k: usize = 0;
                        while k < g.len()
                            invariant
                                k <= g@.len(),
                                out@ == pre_group + midi_group_items(g@.take(k as int)),
                            decreases g@.len() - k,
                        {
                            if k > 0 {
                                out.append(", ");
                            }
                            append_i8(&mut out, g[k]);
                            proof {
                                assert(g@.take(k as int + 1).drop_last() =~= g@.take(k as int));
                                assert(g@.take(k as int + 1).last() == g@[k as int]);
                                if k == 0 {
                                    assert(g@.take(1)[0] == g@[0]);
                                }
                                assert(out@ =~= pre_group + midi_group_items(
                                    g@.take(k as int + 1),
                                ));
                            }
                            k += 1;
                        }
                        proof {
                            assert(g@.take(g@.len() as int) =~= g@);
                        }
                        out.append("]");
                        out.append(",");
                    },
                    None => {
                        out.append("note:Rest(),");
                    },
                }
                proof {
                    let ndv = notes.deep_view();
                    assert(ndv.take(j as int + 1).drop_last() =~= ndv.take(j as int));
                    assert(ndv.take(j as int + 1).last() == ndv[j as int]);
                    assert(ndv[j as int] == notes@[j as int].deep_view());
                    match notes@[j as int] {
                        Some(g) => {
                            assert(g.deep_view() =~= g@);
                            assert(notes@[j as int].deep_view() == Some(g@));
                        },
                        None => {
                            assert(notes@[j as int].deep_view() == None::<Seq<i8>>);
                        },
                    }
                    assert(out@ =~= pre_notes + midi_entries_text(ndv.take(j as int + 1)));
                }
                j += 1;
            }
            proof {
                assert(notes.deep_view().take(notes.deep_view().len() as int)
                    =~= notes.deep_view());
            }
            out.append("]),\n);\n");
            assert(out@ =~= clip_text(*clip));
            out
        },
        Clip::File(name, _) => {
            let mut out = String::new();
            out.append(name.as_str());
            out.append(" = nil; // unimplemented: audio file clip\n");
            assert(out@ =~= clip_text(*clip));
            out
        },
        Clip::Empty(name, d) => {
            let mut out = String::new();
            out.append(name.as_str());
            out.append(" = (note:Rest(), dur:");
            append_duration(&mut out, *d);
            out.append(");\n");
            assert(out@ =~= clip_text(*clip));
            out
        },
    }
}

/// Lowers a single track to its SuperCollider declaration.
pub fn track_to_super_collider(track: &Track) -> (r: String)
    ensures
        r@ == track_text(*track),
{
    let mut out = String::new();
    out.append(track.name.as_str());
    out.append(" = Pseq([");
    let ghost pre_names = out@;
    let mut i: usize = 0;
    while i < track.clip_names.len()
        invariant
            i <= track.clip_names@.len(),
            out@ == pre_names + clip_name_items(track.clip_names.deep_view().take(i as int)),
        decreases track.clip_names@.len() - i,
    {
        out.append(track.clip_names[i].as_str());
        out.append(",");
        proof {
            let ndv = track.clip_names.deep_view();
            assert(ndv.take(i as int + 1).drop_last() =~= ndv.take(i as int));
            assert(ndv.take(i as int + 1).last() == ndv[i as int]);
            assert(out@ =~= pre_names + clip_name_items(ndv.take(i as int + 1)));
        }
        i += 1;
    }
    proof {
        let ndv = track.clip_names.deep_view();
        assert(ndv.take(ndv.len() as int) =~= ndv);
    }
    out.append("]).do({arg currClip; currClip.play});\n");
    assert(out@ =~= track_text(*track));
    out
}

/// Lowers a whole arrangement: the fixed preamble, one combined variable
/// declaration built from `Arrangement::get_names`, every clip declaration
/// in clip order, every track declaration in track order, and a final
/// statement playing all tracks. Every instrument clip must be well
/// formed.
pub fn arrangement_to_super_collider(arrangement: &Arrangement) -> (r: String)
    requires
        forall|i: int| 0 <= i < arrangement.clips@.len() ==> (#[trigger] arrangement.clips@[i]).wf(),
    ensures
        r@ == arrangement_text(*arrangement),
{
    let mut out = String::new();
    out.append(
        "(\nSynthDef.new(\\sine, {\n    arg freq=440, atk=0.005, rel=0.3, amp=1, pan=0;\n    var sig, env;\n    sig = SinOsc.ar(freq);\n    env = EnvGen.kr(Env.new([0, 1, 0], [atk, rel], [1, -1]), doneAction:2);\n    sig = Pan2.ar(sig, pan, amp);\n    sig = sig * env;\n    Out.ar(0, sig);\n}).add;\n)\n",
    );
    out.append("(\n");
    out.append("var ");
    let names = arrangement.get_names();
    let ghost pre_vars = out@;
    let mut i: usize = 0;
    while i < names.len()
        invariant
            i <= names@.len(),
            names.deep_view() == arrangement.names_view(),
            out@ == pre_vars + var_decl_items(names.deep_view().take(i as int)),
        decreases names@.len() - i,
    {
        if i > 0 {
            out.append(",");
        }
        out.append(names[i].as_str());
        proof {
            let ndv = names.deep_view();
            assert(ndv.take(i as int + 1).drop_last() =~= ndv.take(i as int));
            assert(ndv.take(i as int + 1).last() == ndv[i as int]);
            if i == 0 {
                assert(ndv.take(1)[0] == ndv[0]);
            }
            assert(out@ =~= pre_vars + var_decl_items(ndv.take(i as int + 1)));
        }
        i += 1;
    }
    proof {
        let ndv = names.deep_view();
        assert(ndv.take(ndv.len() as int) =~= ndv);
    }
    out.append(";");
    out.append("\n");
    let ghost pre_clips = out@;
    let mut c: usize = 0;
    while c < arrangement.clips.len()
        invariant
            c <= arrangement.clips@.len(),
            forall|k: int|
                0 <= k < arrangement.clips@.len() ==> (#[trigger] arrangement.clips@[k]).wf(),
            out@ == pre_clips + clip_decls_text(arrangement.clips@.take(c as int)),
        decreases arrangement.clips@.len() - c,
    {
        let decl = clip_to_super_collider(&arrangement.clips[c]);
        out.append(decl.as_str());
        proof {
            assert(arrangement.clips@.take(c as int + 1).drop_last() =~= arrangement.clips@.take(
                c as int,
            ));
            assert(arrangement.clips@.take(c as int + 1).last() == arrangement.clips@[c as int]);
            assert(out@ =~= pre_clips + clip_decls_text(arrangement.clips@.take(c as int + 1)));
        }
        c += 1;
    }
    proof {
        assert(arrangement.clips@.take(arrangement.clips@.len() as int) =~= arrangement.clips@);
    }
    let ghost pre_tracks = out@;
    let mut track_names = String::new();
    let mut t: usize = 0;
    while t < arrangement.tracks.len()
        invariant
            t <= arrangement.tracks@.len(),
            out@ == pre_tracks + track_decls_text(arrangement.tracks@.take(t as int)),
            track_names@ == track_name_items(arrangement.tracks@.take(t as int)),
        decreases arrangement.tracks@.len() - t,
    {
        let decl = track_to_super_collider(&arrangement.tracks[t]);
        out.append(decl.as_str());
        track_names.append(arrangement.tracks[t].name.as_str());
        track_names.append(",");
        proof {
            assert(arrangement.tracks@.take(t as int + 1).drop_last() =~= arrangement.tracks@.take(
                t as int,
            ));
            assert(arrangement.tracks@.take(t as int + 1).last() == arrangement.tracks@[t as int]);
            assert(out@ =~= pre_tracks + track_decls_text(arrangement.tracks@.take(t as int + 1)));
            assert(track_names@ =~= track_name_items(arrangement.tracks@.take(t as int + 1)));
        }
        t += 1;
    }
    proof {
        assert(arrangement.tracks@.take(arrangement.tracks@.len() as int) =~= arrangement.tracks@);
    }
    out.append("[");
    out.append(track_names.as_str());
    out.append("].do({arg currTrack; currTrack.play})\n)");
    assert(out@ =~= arrangement_text(*arrangement));
    out
}

} // verus!
