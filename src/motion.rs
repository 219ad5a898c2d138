//! A motion: bone tracks and morph tracks, each under a distinct name, kept
//! in the order in which their names first appeared.
use vstd::prelude::*;
use crate::keyframe::{BoneKeyframe, MorphKeyframe};
use crate::motion_track::{
    BoneMotionTrack, BoneSample, MorphMotionTrack, MorphSample, bone_inserted, morph_inserted,
    bone_put, morph_put, bone_sampled, morph_sampled,
};

verus! {

/// A bone track under its name.
#[derive(Clone, Debug)]
pub struct NamedBoneTrack {
    pub name: String,
    pub track: BoneMotionTrack,
}

/// Names are pairwise distinct and every track is well formed.
pub open spec fn bone_tracks_wf(s: Seq<NamedBoneTrack>) -> bool {
    &&& forall|i: int, j: int| 0 <= i < j < s.len() ==> s[i].name@ != s[j].name@
    &&& forall|i: int| 0 <= i < s.len() ==> (#[trigger] s[i]).track.wf()
}

/// Largest frame index over all tracks of `s`, 0 when there is none.
pub open spec fn bone_tracks_max(s: Seq<NamedBoneTrack>) -> u32
    decreases s.len(),
{
    if s.len() == 0 {
        0
    } else {
        let m = bone_tracks_max(s.drop_last());
        let t = s.last().track@;
        let k = if t.len() == 0 { 0 } else { t.last().frame_index };
        if k > m { k } else { m }
    }
}

/// Tracks of `s` as (name, keyframes) pairs.
pub open spec fn bone_view(s: Seq<NamedBoneTrack>) -> Seq<(Seq<char>, Seq<BoneKeyframe>)> {
    s.map_values(|t: NamedBoneTrack| (t.name@, t.track@))
}

/// `v` with `k` put into the track named `name`; a track is added at the
/// end when no track has that name.
pub open spec fn bone_named_put(v: Seq<(Seq<char>, Seq<BoneKeyframe>)>, name: Seq<char>, k: BoneKeyframe) -> Seq<(Seq<char>, Seq<BoneKeyframe>)>
    decreases v.len(),
{
    if v.len() == 0 {
        seq![(name, seq![k])]
    } else if v[0].0 == name {
        v.update(0, (name, bone_put(v[0].1, k)))
    } else {
        seq![v[0]] + bone_named_put(v.drop_first(), name, k)
    }
}

proof fn lemma_bone_named_put(v: Seq<(Seq<char>, Seq<BoneKeyframe>)>, name: Seq<char>, k: BoneKeyframe, i: int)
    requires
        0 <= i <= v.len(),
        forall|j: int| 0 <= j < i ==> v[j].0 != name,
        i < v.len() ==> v[i].0 == name,
    ensures
        i < v.len() ==> bone_named_put(v, name, k) == v.update(i, (name, bone_put(v[i].1, k))),
        i == v.len() ==> bone_named_put(v, name, k) == v.push((name, seq![k])),
    decreases v.len(),
{
    if v.len() == 0 {
        assert(v.push((name, seq![k])) =~= seq![(name, seq![k])]);
    } else if v[0].0 == name {
    } else {
        let d = v.drop_first();
        lemma_bone_named_put(d, name, k, i - 1);
        if i < v.len() {
            assert(v.update(i, (name, bone_put(v[i].1, k))) =~= seq![v[0]] + d.update(i - 1, (name, bone_put(d[i - 1].1, k))));
        } else {
            assert(v.push((name, seq![k])) =~= seq![v[0]] + d.push((name, seq![k])));
        }
    }
}

/// Position of the track named `name`, if any.
fn bone_track_position(s: &Vec<NamedBoneTrack>, name: &String) -> (r: Option<usize>)
    requires
        bone_tracks_wf(s@),
    ensures
        match r {
            Some(i) => i < s@.len() && s@[i as int].name@ == name@,
            None => forall|j: int| 0 <= j < s@.len() ==> s@[j].name@ != name@,
        },
{
    let mut i: usize = 0;
    while i < s.len()
        invariant
            i <= s@.len(),
            forall|j: int| 0 <= j < i ==> s@[j].name@ != name@,
        decreases s@.len() - i,
    {
        if s[i].name == *name {
            return Some(i);
        }
        i = i + 1;
    }
    None
}

/// Largest frame index over all tracks.
fn bone_tracks_max_exec(s: &Vec<NamedBoneTrack>) -> (r: u32)
    requires
        bone_tracks_wf(s@),
    ensures
        r == bone_tracks_max(s@),
{
    let mut m: u32 = 0;
    let mut i: usize = 0;
    while i < s.len()
        invariant
            i <= s@.len(),
            bone_tracks_wf(s@),
            m == bone_tracks_max(s@.subrange(0, i as int)),
        decreases s@.len() - i,
    {
        assert(s@.subrange(0, i + 1).drop_last() == s@.subrange(0, i as int));
        let k = s[i].track.max_frame_index();
        if k > m {
            m = k;
        }
        i = i + 1;
    }
    assert(s@.subrange(0, s@.len() as int) == s@);
    m
}

/// Names of the tracks of `s`, in order.
fn bone_track_names(s: &Vec<NamedBoneTrack>) -> (r: Vec<String>)
    ensures
        r@.len() == s@.len(),
        forall|i: int| 0 <= i < s@.len() ==> r@[i]@ == s@[i].name@,
{
    let mut out: Vec<String> = Vec::new();
    let mut i: usize = 0;
    while i < s.len()
        invariant
            i <= s@.len(),
            out@.len() == i,
            forall|j: int| 0 <= j < i ==> out@[j]@ == s@[j].name@,
        decreases s@.len() - i,
    {
        out.push(s[i].name.clone());
        i = i + 1;
    }
    out
}

/// A morph track under its name.
#[derive(Clone, Debug)]
pub struct NamedMorphTrack {
    pub name: String,
    pub track: MorphMotionTrack,
}

/// Names are pairwise distinct and every track is well formed.
pub open spec fn morph_tracks_wf(s: Seq<NamedMorphTrack>) -> bool {
    &&& forall|i: int, j: int| 0 <= i < j < s.len() ==> s[i].name@ != s[j].name@
    &&& forall|i: int| 0 <= i < s.len() ==> (#[trigger] s[i]).track.wf()
}

/// Largest frame index over all tracks of `s`, 0 when there is none.
pub open spec fn morph_tracks_max(s: Seq<NamedMorphTrack>) -> u32
    decreases s.len(),
{
    if s.len() == 0 {
        0
    } else {
        let m = morph_tracks_max(s.drop_last());
        let t = s.last().track@;
        let k = if t.len() == 0 { 0 } else { t.last().frame_index };
        if k > m { k } else { m }
    }
}

/// Tracks of `s` as (name, keyframes) pairs.
pub open spec fn morph_view(s: Seq<NamedMorphTrack>) -> Seq<(Seq<char>, Seq<MorphKeyframe>)> {
    s.map_values(|t: NamedMorphTrack| (t.name@, t.track@))
}

/// `v` with `k` put into the track named `name`; a track is added at the
/// end when no track has that name.
pub open spec fn morph_named_put(v: Seq<(Seq<char>, Seq<MorphKeyframe>)>, name: Seq<char>, k: MorphKeyframe) -> Seq<(Seq<char>, Seq<MorphKeyframe>)>
    decreases v.len(),
{
    if v.len() == 0 {
        seq![(name, seq![k])]
    } else if v[0].0 == name {
        v.update(0, (name, morph_put(v[0].1, k)))
    } else {
        seq![v[0]] + morph_named_put(v.drop_first(), name, k)
    }
}

proof fn lemma_morph_named_put(v: Seq<(Seq<char>, Seq<MorphKeyframe>)>, name: Seq<char>, k: MorphKeyframe, i: int)
    requires
        0 <= i <= v.len(),
        forall|j: int| 0 <= j < i ==> v[j].0 != name,
        i < v.len() ==> v[i].0 == name,
    ensures
        i < v.len() ==> morph_named_put(v, name, k) == v.update(i, (name, morph_put(v[i].1, k))),
        i == v.len() ==> morph_named_put(v, name, k) == v.push((name, seq![k])),
    decreases v.len(),
{
    if v.len() == 0 {
        assert(v.push((name, seq![k])) =~= seq![(name, seq![k])]);
    } else if v[0].0 == name {
    } else {
        let d = v.drop_first();
        lemma_morph_named_put(d, name, k, i - 1);
        if i < v.len() {
            assert(v.update(i, (name, morph_put(v[i].1, k))) =~= seq![v[0]] + d.update(i - 1, (name, morph_put(d[i - 1].1, k))));
        } else {
            assert(v.push((name, seq![k])) =~= seq![v[0]] + d.push((name, seq![k])));
        }
    }
}

/// Position of the track named `name`, if any.
fn morph_track_position(s: &Vec<NamedMorphTrack>, name: &String) -> (r: Option<usize>)
    requires
        morph_tracks_wf(s@),
    ensures
        match r {
            Some(i) => i < s@.len() && s@[i as int].name@ == name@,
            None => forall|j: int| 0 <= j < s@.len() ==> s@[j].name@ != name@,
        },
{
    let mut i: usize = 0;
    while i < s.len()
        invariant
            i <= s@.len(),
            forall|j: int| 0 <= j < i ==> s@[j].name@ != name@,
        decreases s@.len() - i,
    {
        if s[i].name == *name {
            return Some(i);
        }
        i = i + 1;
    }
    None
}

/// Largest frame index over all tracks.
fn morph_tracks_max_exec(s: &Vec<NamedMorphTrack>) -> (r: u32)
    requires
        morph_tracks_wf(s@),
    ensures
        r == morph_tracks_max(s@),
{
    let mut m: u32 = 0;
    let mut i: usize = 0;
    while i < s.len()
        invariant
            i <= s@.len(),
            morph_tracks_wf(s@),
            m == morph_tracks_max(s@.subrange(0, i as int)),
        decreases s@.len() - i,
    {
        assert(s@.subrange(0, i + 1).drop_last() == s@.subrange(0, i as int));
        let k = s[i].track.max_frame_index();
        if k > m {
            m = k;
        }
        i = i + 1;
    }
    assert(s@.subrange(0, s@.len() as int) == s@);
    m
}

/// Names of the tracks of `s`, in order.
fn morph_track_names(s: &Vec<NamedMorphTrack>) -> (r: Vec<String>)
    ensures
        r@.len() == s@.len(),
        forall|i: int| 0 <= i < s@.len() ==> r@[i]@ == s@[i].name@,
{
    let mut out: Vec<String> = Vec::new();
    let mut i: usize = 0;
    while i < s.len()
        invariant
            i <= s@.len(),
            out@.len() == i,
            forall|j: int| 0 <= j < i ==> out@[j]@ == s@[j].name@,
        decreases s@.len() - i,
    {
        out.push(s[i].name.clone());
        i = i + 1;
    }
    out
}

/// Bone and morph tracks of one motion.
#[derive(Clone, Debug)]
pub struct Motion {
    pub bone_tracks: Vec<NamedBoneTrack>,
    pub morph_tracks: Vec<NamedMorphTrack>,
}

impl Motion {
    pub open spec fn wf(&self) -> bool {
        bone_tracks_wf(self.bone_tracks@) && morph_tracks_wf(self.morph_tracks@)
    }

    /// The largest frame index over all keyframes, 0 when there is none.
    pub open spec fn spec_duration(&self) -> u32 {
        let b = bone_tracks_max(self.bone_tracks@);
        let m = morph_tracks_max(self.morph_tracks@);
        if b > m { b } else { m }
    }

    /// A motion without tracks.
    pub fn new() -> (r: Self)
        ensures
            r.wf(),
            r.bone_tracks@.len() == 0,
            r.morph_tracks@.len() == 0,
    {
        Motion { bone_tracks: Vec::new(), morph_tracks: Vec::new() }
    }

    /// The largest frame index over all keyframes, 0 when there is none.
    pub fn duration(&self) -> (r: u32)
        requires
            self.wf(),
        ensures
            r == self.spec_duration(),
    {
        let b = bone_tracks_max_exec(&self.bone_tracks);
        let m = morph_tracks_max_exec(&self.morph_tracks);
        if b > m { b } else { m }
    }

    /// Adds `keyframe` to the bone track named `name`, creating the track
    /// (after all others) when there is none.
    pub fn insert_bone_keyframe(&mut self, name: &str, keyframe: BoneKeyframe)
        requires
            old(self).wf(),
        ensures
            final(self).wf(),
            bone_view(final(self).bone_tracks@) == bone_named_put(bone_view(old(self).bone_tracks@), name@, keyframe),
            final(self).morph_tracks@ == old(self).morph_tracks@,
            ({
                let s = old(self).bone_tracks@;
                let t = final(self).bone_tracks@;
                ||| exists|i: int|
                    0 <= i < s.len() && s[i].name@ == name@ && t.len() == s.len() && t[i].name@ == name@
                        && (exists|r: Option<BoneKeyframe>| bone_inserted(s[i].track@, t[i].track@, keyframe, r))
                        && forall|j: int| 0 <= j < s.len() && j != i ==> t[j] == s[j]
                ||| (forall|i: int| 0 <= i < s.len() ==> s[i].name@ != name@) && t.len() == s.len() + 1
                    && t.last().name@ == name@ && t.last().track@ == seq![keyframe]
                    && forall|j: int| 0 <= j < s.len() ==> t[j] == s[j]
            }),
    {
        let key = name.to_owned();
        match bone_track_position(&self.bone_tracks, &key) {
            Some(i) => {
                let ghost s = self.bone_tracks@;
                let mut e = self.bone_tracks.remove(i);
                let r = e.track.insert_keyframe(keyframe);
                self.bone_tracks.insert(i, e);
                proof {
                    let t = self.bone_tracks@;
                    assert(t[i as int] == e);
                    assert(bone_inserted(s[i as int].track@, t[i as int].track@, keyframe, r));
                    assert forall|j: int| 0 <= j < s.len() && j != i implies t[j] == s[j] by {}
                    assert forall|a: int, b: int| 0 <= a < b < t.len() implies t[a].name@ != t[b].name@ by {
                        assert(t[a].name@ == s[a].name@);
                        assert(t[b].name@ == s[b].name@);
                    }
                    assert forall|a: int| 0 <= a < t.len() implies (#[trigger] t[a]).track.wf() by {
                        if a != i {
                            assert(t[a] == s[a]);
                        }
                    }
                    lemma_bone_named_put(bone_view(s), name@, keyframe, i as int);
                    assert(bone_view(t) =~= bone_view(s).update(i as int, (name@, bone_put(s[i as int].track@, keyframe))));
                }
            },
            None => {
                let mut t = BoneMotionTrack::new();
                let r = t.insert_keyframe(keyframe);
                proof {
                    assert(t@ =~= seq![keyframe]);
                }
                self.bone_tracks.push(NamedBoneTrack { name: key, track: t });
                proof {
                    lemma_bone_named_put(bone_view(old(self).bone_tracks@), name@, keyframe, old(self).bone_tracks@.len() as int);
                    assert(bone_view(self.bone_tracks@) =~= bone_view(old(self).bone_tracks@).push((name@, seq![keyframe])));
                }
            },
        }
    }

    /// Whether a bone track named `name` exists.
    pub fn contains_bone_track(&self, name: &str) -> (r: bool)
        requires
            self.wf(),
        ensures
            r == exists|i: int| 0 <= i < self.bone_tracks@.len() && self.bone_tracks@[i].name@ == name@,
    {
        let key = name.to_owned();
        match bone_track_position(&self.bone_tracks, &key) {
            Some(_) => true,
            None => false,
        }
    }

    /// The bone track named `name`.
    pub fn bone_track(&self, name: &str) -> (r: Option<&BoneMotionTrack>)
        requires
            self.wf(),
        ensures
            match r {
                Some(t) => exists|i: int|
                    0 <= i < self.bone_tracks@.len() && self.bone_tracks@[i].name@ == name@ && self.bone_tracks@[i].track == *t,
                None => forall|i: int| 0 <= i < self.bone_tracks@.len() ==> self.bone_tracks@[i].name@ != name@,
            },
    {
        let key = name.to_owned();
        match bone_track_position(&self.bone_tracks, &key) {
            Some(i) => Some(&self.bone_tracks[i].track),
            None => None,
        }
    }

    /// Samples the bone track named `name` at frame `f`; a missing track
    /// samples as identity.
    pub fn sample_bone(&self, name: &str, f: u32) -> (r: BoneSample)
        requires
            self.wf(),
        ensures
            (exists|i: int| 0 <= i < self.bone_tracks@.len() && self.bone_tracks@[i].name@ == name@
                && bone_sampled(self.bone_tracks@[i].track@, f, r))
            || ((forall|i: int| 0 <= i < self.bone_tracks@.len() ==> self.bone_tracks@[i].name@ != name@)
                && r == BoneSample::Identity),
    {
        let key = name.to_owned();
        match bone_track_position(&self.bone_tracks, &key) {
            Some(i) => self.bone_tracks[i].track.sample(f),
            None => BoneSample::Identity,
        }
    }

    /// Names of the bone tracks, in order.
    pub fn bone_track_names(&self) -> (r: Vec<String>)
        ensures
            r@.len() == self.bone_tracks@.len(),
            forall|i: int| 0 <= i < r@.len() ==> r@[i]@ == self.bone_tracks@[i].name@,
    {
        bone_track_names(&self.bone_tracks)
    }

    /// Adds `keyframe` to the morph track named `name`, creating the track
    /// (after all others) when there is none.
    pub fn insert_morph_keyframe(&mut self, name: &str, keyframe: MorphKeyframe)
        requires
            old(self).wf(),
        ensures
            final(self).wf(),
            morph_view(final(self).morph_tracks@) == morph_named_put(morph_view(old(self).morph_tracks@), name@, keyframe),
            final(self).bone_tracks@ == old(self).bone_tracks@,
            ({
                let s = old(self).morph_tracks@;
                let t = final(self).morph_tracks@;
                ||| exists|i: int|
                    0 <= i < s.len() && s[i].name@ == name@ && t.len() == s.len() && t[i].name@ == name@
                        && (exists|r: Option<MorphKeyframe>| morph_inserted(s[i].track@, t[i].track@, keyframe, r))
                        && forall|j: int| 0 <= j < s.len() && j != i ==> t[j] == s[j]
                ||| (forall|i: int| 0 <= i < s.len() ==> s[i].name@ != name@) && t.len() == s.len() + 1
                    && t.last().name@ == name@ && t.last().track@ == seq![keyframe]
                    && forall|j: int| 0 <= j < s.len() ==> t[j] == s[j]
            }),
    {
        let key = name.to_owned();
        match morph_track_position(&self.morph_tracks, &key) {
            Some(i) => {
                let ghost s = self.morph_tracks@;
                let mut e = self.morph_tracks.remove(i);
                let r = e.track.insert_keyframe(keyframe);
                self.morph_tracks.insert(i, e);
                proof {
                    let t = self.morph_tracks@;
                    assert(t[i as int] == e);
                    assert(morph_inserted(s[i as int].track@, t[i as int].track@, keyframe, r));
                    assert forall|j: int| 0 <= j < s.len() && j != i implies t[j] == s[j] by {}
                    assert forall|a: int, b: int| 0 <= a < b < t.len() implies t[a].name@ != t[b].name@ by {
                        assert(t[a].name@ == s[a].name@);
                        assert(t[b].name@ == s[b].name@);
                    }
                    assert forall|a: int| 0 <= a < t.len() implies (#[trigger] t[a]).track.wf() by {
                        if a != i {
                            assert(t[a] == s[a]);
                        }
                    }
                    lemma_morph_named_put(morph_view(s), name@, keyframe, i as int);
                    assert(morph_view(t) =~= morph_view(s).update(i as int, (name@, morph_put(s[i as int].track@, keyframe))));
                }
            },
            None => {
                let mut t = MorphMotionTrack::new();
                let r = t.insert_keyframe(keyframe);
                proof {
                    assert(t@ =~= seq![keyframe]);
                }
                self.morph_tracks.push(NamedMorphTrack { name: key, track: t });
                proof {
                    lemma_morph_named_put(morph_view(old(self).morph_tracks@), name@, keyframe, old(self).morph_tracks@.len() as int);
                    assert(morph_view(self.morph_tracks@) =~= morph_view(old(self).morph_tracks@).push((name@, seq![keyframe])));
                }
            },
        }
    }

    /// Whether a morph track named `name` exists.
    pub fn contains_morph_track(&self, name: &str) -> (r: bool)
        requires
            self.wf(),
        ensures
            r == exists|i: int| 0 <= i < self.morph_tracks@.len() && self.morph_tracks@[i].name@ == name@,
    {
        let key = name.to_owned();
        match morph_track_position(&self.morph_tracks, &key) {
            Some(_) => true,
            None => false,
        }
    }

    /// The morph track named `name`.
    pub fn morph_track(&self, name: &str) -> (r: Option<&MorphMotionTrack>)
        requires
            self.wf(),
        ensures
            match r {
                Some(t) => exists|i: int|
                    0 <= i < self.morph_tracks@.len() && self.morph_tracks@[i].name@ == name@ && self.morph_tracks@[i].track == *t,
                None => forall|i: int| 0 <= i < self.morph_tracks@.len() ==> self.morph_tracks@[i].name@ != name@,
            },
    {
        let key = name.to_owned();
        match morph_track_position(&self.morph_tracks, &key) {
            Some(i) => Some(&self.morph_tracks[i].track),
            None => None,
        }
    }

    /// Samples the morph track named `name` at frame `f`; a missing track
    /// samples as zero.
    pub fn sample_morph(&self, name: &str, f: u32) -> (r: MorphSample)
        requires
            self.wf(),
        ensures
            (exists|i: int| 0 <= i < self.morph_tracks@.len() && self.morph_tracks@[i].name@ == name@
                && morph_sampled(self.morph_tracks@[i].track@, f, r))
            || ((forall|i: int| 0 <= i < self.morph_tracks@.len() ==> self.morph_tracks@[i].name@ != name@)
                && r == MorphSample::Zero),
    {
        let key = name.to_owned();
        match morph_track_position(&self.morph_tracks, &key) {
            Some(i) => self.morph_tracks[i].track.sample(f),
            None => MorphSample::Zero,
        }
    }

    /// Names of the morph tracks, in order.
    pub fn morph_track_names(&self) -> (r: Vec<String>)
        ensures
            r@.len() == self.morph_tracks@.len(),
            forall|i: int| 0 <= i < r@.len() ==> r@[i]@ == self.morph_tracks@[i].name@,
    {
        morph_track_names(&self.morph_tracks)
    }

}

} // verus!
