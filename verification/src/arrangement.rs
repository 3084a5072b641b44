//! Arrangements: the full composition. An arrangement owns all tracks
//! (currently mixed together with equal weight) and the pool of clips
//! whose names the tracks refer to. Name uniqueness across both is
//! expected but not enforced; volume control and combination effects per
//! track are a future extension point.

use vstd::prelude::*;

use crate::clip::Clip;
use crate::track::Track;

verus! {

/// All tracks that comprise the composition, and all clips used within
/// them.
pub struct Arrangement {
    pub tracks: Vec<Track>,
    pub clips: Vec<Clip>,
}

impl Arrangement {
    /// The names of all clips followed by the names of all tracks, each
    /// group in container order. Text lowering depends on exactly this
    /// order when it declares the output's variables.
    pub open spec fn names_view(&self) -> Seq<Seq<char>> {
        self.clips@.map_values(|c: Clip| c.name_view()) + self.tracks@.map_values(
            |t: Track| t.name@,
        )
    }

    pub fn new(tracks: Vec<Track>, clips: Vec<Clip>) -> (a: Arrangement)
        ensures
            a.tracks == tracks,
            a.clips == clips,
    {
        Arrangement { tracks, clips }
    }

    /// A vector of all the names of clips and tracks: clips first, then
    /// tracks, each group in container order.
    pub fn get_names(&self) -> (r: Vec<String>)
        ensures
            r.deep_view() == self.names_view(),
    {
        let mut names: Vec<String> = Vec::new();
        let mut i: usize = 0;
        while i < self.clips.len()
            invariant
                i <= self.clips@.len(),
                names@.len() == i,
                forall|j: int| 0 <= j < i ==> (#[trigger] names@[j])@ == self.clips@[j].name_view(),
            decreases self.clips@.len() - i,
        {
            names.push(self.clips[i].get_name());
            i += 1;
        }
        let mut k: usize = 0;
        while k < self.tracks.len()
            invariant
                k <= self.tracks@.len(),
                names@.len() == self.clips@.len() + k,
                forall|j: int|
                    0 <= j < self.clips@.len() ==> (#[trigger] names@[j])@
                        == self.clips@[j].name_view(),
                forall|j: int|
                    0 <= j < k ==> (#[trigger] names@[self.clips@.len() + j])@
                        == self.tracks@[j].name@,
            decreases self.tracks@.len() - k,
        {
            names.push(self.tracks[k].get_name().clone());
            k += 1;
        }
        proof {
            let dv = names.deep_view();
            let nv = self.names_view();
            assert forall|j: int| 0 <= j < dv.len() implies dv[j] == nv[j] by {
                assert(dv[j] == names@[j].deep_view());
                assert(names@[j].deep_view() == names@[j]@);
                if j < self.clips@.len() {
                    assert(names@[j]@ == self.clips@[j].name_view());
                    assert(nv[j] == self.clips@.map_values(|c: Clip| c.name_view())[j]);
                    assert(self.clips@.map_values(|c: Clip| c.name_view())[j]
                        == self.clips@[j].name_view());
                } else {
                    assert(names@[self.clips@.len() + (j - self.clips@.len())]@ == self.tracks@[j
                        - self.clips@.len()].name@);
                    assert(names@[j]@ == self.tracks@[j - self.clips@.len()].name@);
                    assert(nv[j] == self.tracks@.map_values(|t: Track| t.name@)[j
                        - self.clips@.len()]);
                    assert(self.tracks@.map_values(|t: Track| t.name@)[j - self.clips@.len()]
                        == self.tracks@[j - self.clips@.len()].name@);
                }
            }
            assert(names.deep_view() =~= self.names_view());
        }
        names
    }

    pub fn get_clips_ref(&self) -> (r: &Vec<Clip>)
        ensures
            r@ == self.clips@,
    {
        &self.clips
    }

    pub fn get_tracks_ref(&self) -> (r: &Vec<Track>)
        ensures
            r@ == self.tracks@,
    {
        &self.tracks
    }
}

} // verus!
