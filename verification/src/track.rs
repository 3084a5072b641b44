//! Tracks: ordered sequences of clips, one playback lane each. A track
//! refers to its clips symbolically, by name only: it neither owns nor
//! validates them, and resolution happens only at lowering time, by
//! textual inclusion. Rests can be represented by naming empty clips.

use vstd::prelude::*;

verus! {

/// A named, ordered list of clip names.
#[derive(Debug, Eq)]
pub struct Track {
    pub name: String,
    pub clip_names: Vec<String>,
}

impl Track {
    pub fn new(name: String, clip_names: Vec<String>) -> (t: Track)
        ensures
            t.name == name,
            t.clip_names == clip_names,
    {
        Track { name, clip_names }
    }

    pub fn get_name(&self) -> (r: &String)
        ensures
            r@ == self.name@,
    {
        &self.name
    }

    pub fn get_names_ref(&self) -> (r: &Vec<String>)
        ensures
            r@ == self.clip_names@,
    {
        &self.clip_names
    }

    /// Appends a clip name at the end of the track.
    pub fn append_clip(&mut self, clip_name: String)
        ensures
            final(self).name == old(self).name,
            final(self).clip_names@ == old(self).clip_names@.push(clip_name),
    {
        self.clip_names.push(clip_name);
    }
}

/// Two tracks are equal when they have the same name and the same clip
/// names in the same order.
impl PartialEq for Track {
    fn eq(&self, other: &Track) -> (r: bool) {
        if !(self.name == other.name) {
            return false;
        }
        if self.clip_names.len() != other.clip_names.len() {
            assert(self.clip_names.deep_view().len() != other.clip_names.deep_view().len());
            return false;
        }
        let mut i: usize = 0;
        while i < self.clip_names.len()
            invariant
                i <= self.clip_names@.len(),
                self.clip_names@.len() == other.clip_names@.len(),
                forall|j: int| 0 <= j < i ==> self.clip_names@[j]@ == other.clip_names@[j]@,
            decreases self.clip_names@.len() - i,
        {
            if !(self.clip_names[i] == other.clip_names[i]) {
                assert(self.clip_names.deep_view()[i as int]
                    != other.clip_names.deep_view()[i as int]);
                return false;
            }
            i += 1;
        }
        assert(self.clip_names.deep_view() =~= other.clip_names.deep_view());
        true
    }
}

impl vstd::std_specs::cmp::PartialEqSpecImpl for Track {
    open spec fn obeys_eq_spec() -> bool {
        true
    }

    open spec fn eq_spec(&self, other: &Track) -> bool {
        self.name@ == other.name@ && self.clip_names.deep_view() == other.clip_names.deep_view()
    }
}

} // verus!
