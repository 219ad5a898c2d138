//! Keyframe tracks: one bone's or one morph's keyframes, ordered by frame
//! index with at most one keyframe per frame.
use vstd::prelude::*;
use crate::keyframe::{BoneKeyframe, MorphKeyframe};

verus! {

/// `s` with `k` put at its frame, replacing the keyframe there if any.
pub open spec fn bone_put(s: Seq<BoneKeyframe>, k: BoneKeyframe) -> Seq<BoneKeyframe>
    decreases s.len(),
{
    if s.len() == 0 {
        seq![k]
    } else if s.last().frame_index < k.frame_index {
        s.push(k)
    } else if s.last().frame_index == k.frame_index {
        s.drop_last().push(k)
    } else {
        bone_put(s.drop_last(), k).push(s.last())
    }
}

/// Putting `k` at its lower-bound position `i` of a sorted sequence.
proof fn lemma_bone_put(s: Seq<BoneKeyframe>, k: BoneKeyframe, i: int)
    requires
        bone_frames_sorted(s),
        0 <= i <= s.len(),
        forall|j: int| 0 <= j < i ==> s[j].frame_index < k.frame_index,
        forall|j: int| i <= j < s.len() ==> s[j].frame_index >= k.frame_index,
    ensures
        i < s.len() && s[i].frame_index == k.frame_index ==> bone_put(s, k) == s.update(i, k),
        !(i < s.len() && s[i].frame_index == k.frame_index) ==> bone_put(s, k) == s.insert(i, k),
    decreases s.len(),
{
    if s.len() == 0 {
        assert(s.insert(i, k) =~= seq![k]);
    } else if s.last().frame_index < k.frame_index {
        assert(s.insert(i, k) =~= s.push(k));
    } else if s.last().frame_index == k.frame_index {
        if i < s.len() - 1 {
            assert(s[i].frame_index < s[s.len() - 1].frame_index);
        }
        assert(i == s.len() - 1);
        assert(s.update(i, k) =~= s.drop_last().push(k));
    } else {
        let d = s.drop_last();
        lemma_bone_put(d, k, i);
        if i < s.len() && s[i].frame_index == k.frame_index {
            assert(s.update(i, k) =~= d.update(i, k).push(s.last()));
        } else {
            assert(s.insert(i, k) =~= d.insert(i, k).push(s.last()));
        }
    }
}

/// `t` is `s` with `k` put at its frame: the keyframe there, returned as
/// `r`, is replaced, or `k` is inserted in place.
pub open spec fn bone_inserted(s: Seq<BoneKeyframe>, t: Seq<BoneKeyframe>, k: BoneKeyframe, r: Option<BoneKeyframe>) -> bool {
    match r {
        Some(o) => exists|i: int|
            0 <= i < s.len() && s[i].frame_index == k.frame_index && o == s[i] && t == s.update(i, k),
        None => (forall|i: int| 0 <= i < s.len() ==> s[i].frame_index != k.frame_index)
            && exists|i: int| 0 <= i <= s.len() && t == s.insert(i, k),
    }
}

/// Frame indices strictly increase along the sequence.
pub open spec fn bone_frames_sorted(s: Seq<BoneKeyframe>) -> bool {
    forall|i: int, j: int| 0 <= i < j < s.len() ==> s[i].frame_index < s[j].frame_index
}

/// `k` is the largest frame index in `s` that is at most `f`.
pub open spec fn bone_prev_key(s: Seq<BoneKeyframe>, f: u32, r: Option<u32>) -> bool {
    match r {
        None => forall|i: int| 0 <= i < s.len() ==> s[i].frame_index > f,
        Some(k) => k <= f && (exists|i: int| 0 <= i < s.len() && s[i].frame_index == k)
            && forall|i: int| 0 <= i < s.len() && s[i].frame_index <= f ==> s[i].frame_index <= k,
    }
}

/// `k` is the smallest frame index in `s` that is greater than `f`.
pub open spec fn bone_next_key(s: Seq<BoneKeyframe>, f: u32, r: Option<u32>) -> bool {
    match r {
        None => forall|i: int| 0 <= i < s.len() ==> s[i].frame_index <= f,
        Some(k) => k > f && (exists|i: int| 0 <= i < s.len() && s[i].frame_index == k)
            && forall|i: int| 0 <= i < s.len() && s[i].frame_index > f ==> s[i].frame_index >= k,
    }
}

/// What sampling a bone track at a whole frame amounts to, before any float
/// is computed. The interpolation coefficient is `offset / interval`.
#[derive(Clone, Copy, Debug, PartialEq, Eq)]
pub enum BoneSample {
    /// The track has no keyframe: identity pose, physics not enabled.
    Identity,
    /// The pose of one keyframe: an exact match, or the nearest keyframe
    /// when the frame lies before the first or after the last.
    Key { keyframe: BoneKeyframe },
    /// Interpolate from `prev` to `next`, with the Bézier parameters of
    /// `next` and curves of length `interval`.
    Blend { prev: BoneKeyframe, next: BoneKeyframe, offset: u32, interval: u32 },
    /// Physics is switched off at `next`: the pose of `next`, cross-faded
    /// with the user pose by the coefficient.
    Handoff { next: BoneKeyframe, offset: u32, interval: u32 },
}

impl BoneSample {
    pub open spec fn spec_enable_physics(&self) -> bool {
        match *self {
            BoneSample::Identity => false,
            BoneSample::Key { keyframe } => keyframe.is_physics_simulation_enabled,
            BoneSample::Blend { prev, next, .. } => prev.is_physics_simulation_enabled
                && next.is_physics_simulation_enabled,
            BoneSample::Handoff { .. } => false,
        }
    }

    /// Whether physics is enabled for the sampled pose.
    pub fn enable_physics(&self) -> (r: bool)
        ensures
            r == self.spec_enable_physics(),
    {
        match *self {
            BoneSample::Identity => false,
            BoneSample::Key { keyframe } => keyframe.is_physics_simulation_enabled,
            BoneSample::Blend { prev, next, .. } => prev.is_physics_simulation_enabled
                && next.is_physics_simulation_enabled,
            BoneSample::Handoff { .. } => false,
        }
    }

    /// Whether the sampled pose asks physics to be switched off.
    pub fn disable_physics(&self) -> (r: bool)
        ensures
            r == (self is Handoff),
    {
        match *self {
            BoneSample::Handoff { .. } => true,
            _ => false,
        }
    }
}

/// `r` is how the sorted keyframes `s` are sampled at frame `f`.
pub open spec fn bone_sampled(s: Seq<BoneKeyframe>, f: u32, r: BoneSample) -> bool {
    match r {
        BoneSample::Identity => s.len() == 0,
        BoneSample::Key { keyframe } => exists|i: int|
            0 <= i < s.len() && s[i] == keyframe && (keyframe.frame_index == f
                || (keyframe.frame_index < f && i == s.len() - 1)
                || (keyframe.frame_index > f && i == 0)),
        BoneSample::Blend { prev, next, offset, interval } => exists|i: int|
            0 <= i && i + 1 < s.len() && #[trigger] s[i] == prev && s[i + 1] == next
                && prev.frame_index < f < next.frame_index
                && offset == f - prev.frame_index && interval == next.frame_index - prev.frame_index
                && !(prev.is_physics_simulation_enabled && !next.is_physics_simulation_enabled),
        BoneSample::Handoff { next, offset, interval } => exists|i: int|
            0 <= i && i + 1 < s.len() && #[trigger] s[i + 1] == next
                && s[i].frame_index < f < next.frame_index
                && offset == f - s[i].frame_index && interval == next.frame_index - s[i].frame_index
                && s[i].is_physics_simulation_enabled && !next.is_physics_simulation_enabled,
    }
}

/// Keyframes of one bone.
#[derive(Clone, Debug)]
pub struct BoneMotionTrack {
    pub keyframes: Vec<BoneKeyframe>,
}

impl View for BoneMotionTrack {
    type V = Seq<BoneKeyframe>;

    open spec fn view(&self) -> Seq<BoneKeyframe> {
        self.keyframes@
    }
}

impl BoneMotionTrack {
    pub open spec fn wf(&self) -> bool {
        bone_frames_sorted(self@)
    }

    /// An empty track.
    pub fn new() -> (r: Self)
        ensures
            r.wf(),
            r@.len() == 0,
    {
        BoneMotionTrack { keyframes: Vec::new() }
    }

    /// Index of the first keyframe whose frame is not below `f`.
    fn lower_bound(&self, f: u32) -> (i: usize)
        requires
            self.wf(),
        ensures
            i <= self@.len(),
            forall|j: int| 0 <= j < i ==> self@[j].frame_index < f,
            forall|j: int| i <= j < self@.len() ==> self@[j].frame_index >= f,
    {
        let mut i: usize = 0;
        while i < self.keyframes.len() && self.keyframes[i].frame_index < f
            invariant
                i <= self@.len(),
                forall|j: int| 0 <= j < i ==> self@[j].frame_index < f,
            decreases self@.len() - i,
        {
            i = i + 1;
        }
        i
    }

    /// Inserts `keyframe` at its frame; the keyframe it replaces, if any,
    /// is returned.
    pub fn insert_keyframe(&mut self, keyframe: BoneKeyframe) -> (r: Option<BoneKeyframe>)
        requires
            old(self).wf(),
        ensures
            final(self).wf(),
            bone_inserted(old(self)@, final(self)@, keyframe, r),
            final(self)@ == bone_put(old(self)@, keyframe),
    {
        let i = self.lower_bound(keyframe.frame_index);
        proof {
            lemma_bone_put(self@, keyframe, i as int);
        }
        if i < self.keyframes.len() && self.keyframes[i].frame_index == keyframe.frame_index {
            let prev = self.keyframes[i];
            self.keyframes.set(i, keyframe);
            Some(prev)
        } else {
            self.keyframes.insert(i, keyframe);
            None
        }
    }

    /// Removes the keyframe at frame `f` and returns it.
    pub fn remove_keyframe(&mut self, f: u32) -> (r: Option<BoneKeyframe>)
        requires
            old(self).wf(),
        ensures
            final(self).wf(),
    match r {
                Some(o) => exists|i: int|
                    0 <= i < old(self)@.len() && old(self)@[i].frame_index == f && o == old(self)@[i]
                        && final(self)@ == old(self)@.remove(i),
                None => (forall|i: int| 0 <= i < old(self)@.len() ==> old(self)@[i].frame_index != f)
                    && final(self)@ == old(self)@,
            },
    {
        let i = self.lower_bound(f);
        if i < self.keyframes.len() && self.keyframes[i].frame_index == f {
            let prev = self.keyframes.remove(i);
            Some(prev)
        } else {
            None
        }
    }

    /// The keyframe at frame `f`, if any.
    pub fn find(&self, f: u32) -> (r: Option<BoneKeyframe>)
        requires
            self.wf(),
        ensures
            match r {
                Some(k) => exists|i: int| 0 <= i < self@.len() && self@[i] == k && k.frame_index == f,
                None => forall|i: int| 0 <= i < self@.len() ==> self@[i].frame_index != f,
            },
    {
        let i = self.lower_bound(f);
        if i < self.keyframes.len() && self.keyframes[i].frame_index == f {
            Some(self.keyframes[i])
        } else {
            None
        }
    }

    /// Index of the first keyframe whose frame is above `f`.
    fn upper_bound(&self, f: u32) -> (i: usize)
        requires
            self.wf(),
        ensures
            i <= self@.len(),
            forall|j: int| 0 <= j < i ==> self@[j].frame_index <= f,
            forall|j: int| i <= j < self@.len() ==> self@[j].frame_index > f,
    {
        let mut i: usize = 0;
        while i < self.keyframes.len() && self.keyframes[i].frame_index <= f
            invariant
                i <= self@.len(),
                forall|j: int| 0 <= j < i ==> self@[j].frame_index <= f,
            decreases self@.len() - i,
        {
            i = i + 1;
        }
        i
    }

    /// The keyframes closest to `f`: the last one at or before `f` and the
    /// first one after it.
    pub fn search_closest_keyframes(&self, f: u32) -> (r: (Option<BoneKeyframe>, Option<BoneKeyframe>))
        requires
            self.wf(),
        ensures
            bone_prev_key(self@, f, match r.0 { Some(k) => Some(k.frame_index), None => None }),
            bone_next_key(self@, f, match r.1 { Some(k) => Some(k.frame_index), None => None }),
            r.0 matches Some(k) ==> exists|i: int| 0 <= i < self@.len() && self@[i] == k,
            r.1 matches Some(k) ==> exists|i: int| 0 <= i < self@.len() && self@[i] == k,
    {
        let i = self.upper_bound(f);
        let prev = if i > 0 {
            let k = self.keyframes[i - 1];
            assert(self@[i - 1] == k);
            Some(k)
        } else {
            None
        };
        let next = if i < self.keyframes.len() {
            let k = self.keyframes[i];
            assert(self@[i as int] == k);
            Some(k)
        } else {
            None
        };
        (prev, next)
    }

    /// The frame indices closest to `f`: the last keyframe at or before `f`
    /// and the first one after it.
    pub fn search_closest(&self, f: u32) -> (r: (Option<u32>, Option<u32>))
        requires
            self.wf(),
        ensures
            bone_prev_key(self@, f, r.0),
            bone_next_key(self@, f, r.1),
    {
        let (p, n) = self.search_closest_keyframes(f);
        let a = match p {
            Some(k) => Some(k.frame_index),
            None => None,
        };
        let b = match n {
            Some(k) => Some(k.frame_index),
            None => None,
        };
        (a, b)
    }

    /// Number of keyframes.
    pub fn len(&self) -> (r: usize)
        ensures
            r == self@.len(),
    {
        self.keyframes.len()
    }

    /// Whether the track holds no keyframe.
    pub fn is_empty(&self) -> (r: bool)
        ensures
            r == (self@.len() == 0),
    {
        self.keyframes.len() == 0
    }

    /// The largest frame index, or 0 for an empty track.
    pub fn max_frame_index(&self) -> (r: u32)
        requires
            self.wf(),
        ensures
            self@.len() == 0 ==> r == 0,
            self@.len() > 0 ==> r == self@.last().frame_index,
            forall|i: int| 0 <= i < self@.len() ==> self@[i].frame_index <= r,
    {
        let n = self.keyframes.len();
        if n == 0 {
            0
        } else {
            self.keyframes[n - 1].frame_index
        }
    }
}

impl BoneMotionTrack {
    /// How the track is sampled at frame `f`: the keyframe at `f`; else the
    /// two keyframes around `f`; else the nearest keyframe; else identity.
    pub fn sample(&self, f: u32) -> (r: BoneSample)
        requires
            self.wf(),
        ensures
            bone_sampled(self@, f, r),
    {
        let n = self.keyframes.len();
        let i = self.upper_bound(f);
        if i > 0 && self.keyframes[i - 1].frame_index == f {
            let k = self.keyframes[i - 1];
            assert(self@[i - 1] == k);
            BoneSample::Key { keyframe: k }
        } else if n == 0 {
            BoneSample::Identity
        } else if i == 0 {
            let k = self.keyframes[0];
            assert(self@[0] == k);
            BoneSample::Key { keyframe: k }
        } else if i == n {
            let k = self.keyframes[n - 1];
            assert(self@[n - 1] == k);
            BoneSample::Key { keyframe: k }
        } else {
            let p = self.keyframes[i - 1];
            let q = self.keyframes[i];
            assert(self@[i - 1] == p && self@[i as int] == q);
            assert((i - 1) + 1 == i);
            let offset = f - p.frame_index;
            let interval = q.frame_index - p.frame_index;
            if p.is_physics_simulation_enabled && !q.is_physics_simulation_enabled {
                BoneSample::Handoff { next: q, offset, interval }
            } else {
                BoneSample::Blend { prev: p, next: q, offset, interval }
            }
        }
    }
}

/// `s` with `k` put at its frame, replacing the keyframe there if any.
pub open spec fn morph_put(s: Seq<MorphKeyframe>, k: MorphKeyframe) -> Seq<MorphKeyframe>
    decreases s.len(),
{
    if s.len() == 0 {
        seq![k]
    } else if s.last().frame_index < k.frame_index {
        s.push(k)
    } else if s.last().frame_index == k.frame_index {
        s.drop_last().push(k)
    } else {
        morph_put(s.drop_last(), k).push(s.last())
    }
}

/// Putting `k` at its lower-bound position `i` of a sorted sequence.
proof fn lemma_morph_put(s: Seq<MorphKeyframe>, k: MorphKeyframe, i: int)
    requires
        morph_frames_sorted(s),
        0 <= i <= s.len(),
        forall|j: int| 0 <= j < i ==> s[j].frame_index < k.frame_index,
        forall|j: int| i <= j < s.len() ==> s[j].frame_index >= k.frame_index,
    ensures
        i < s.len() && s[i].frame_index == k.frame_index ==> morph_put(s, k) == s.update(i, k),
        !(i < s.len() && s[i].frame_index == k.frame_index) ==> morph_put(s, k) == s.insert(i, k),
    decreases s.len(),
{
    if s.len() == 0 {
        assert(s.insert(i, k) =~= seq![k]);
    } else if s.last().frame_index < k.frame_index {
        assert(s.insert(i, k) =~= s.push(k));
    } else if s.last().frame_index == k.frame_index {
        if i < s.len() - 1 {
            assert(s[i].frame_index < s[s.len() - 1].frame_index);
        }
        assert(i == s.len() - 1);
        assert(s.update(i, k) =~= s.drop_last().push(k));
    } else {
        let d = s.drop_last();
        lemma_morph_put(d, k, i);
        if i < s.len() && s[i].frame_index == k.frame_index {
            assert(s.update(i, k) =~= d.update(i, k).push(s.last()));
        } else {
            assert(s.insert(i, k) =~= d.insert(i, k).push(s.last()));
        }
    }
}

/// `t` is `s` with `k` put at its frame: the keyframe there, returned as
/// `r`, is replaced, or `k` is inserted in place.
pub open spec fn morph_inserted(s: Seq<MorphKeyframe>, t: Seq<MorphKeyframe>, k: MorphKeyframe, r: Option<MorphKeyframe>) -> bool {
    match r {
        Some(o) => exists|i: int|
            0 <= i < s.len() && s[i].frame_index == k.frame_index && o == s[i] && t == s.update(i, k),
        None => (forall|i: int| 0 <= i < s.len() ==> s[i].frame_index != k.frame_index)
            && exists|i: int| 0 <= i <= s.len() && t == s.insert(i, k),
    }
}

/// Frame indices strictly increase along the sequence.
pub open spec fn morph_frames_sorted(s: Seq<MorphKeyframe>) -> bool {
    forall|i: int, j: int| 0 <= i < j < s.len() ==> s[i].frame_index < s[j].frame_index
}

/// `k` is the largest frame index in `s` that is at most `f`.
pub open spec fn morph_prev_key(s: Seq<MorphKeyframe>, f: u32, r: Option<u32>) -> bool {
    match r {
        None => forall|i: int| 0 <= i < s.len() ==> s[i].frame_index > f,
        Some(k) => k <= f && (exists|i: int| 0 <= i < s.len() && s[i].frame_index == k)
            && forall|i: int| 0 <= i < s.len() && s[i].frame_index <= f ==> s[i].frame_index <= k,
    }
}

/// `k` is the smallest frame index in `s` that is greater than `f`.
pub open spec fn morph_next_key(s: Seq<MorphKeyframe>, f: u32, r: Option<u32>) -> bool {
    match r {
        None => forall|i: int| 0 <= i < s.len() ==> s[i].frame_index <= f,
        Some(k) => k > f && (exists|i: int| 0 <= i < s.len() && s[i].frame_index == k)
            && forall|i: int| 0 <= i < s.len() && s[i].frame_index > f ==> s[i].frame_index >= k,
    }
}

/// Keyframes of one morph.
#[derive(Clone, Debug)]
pub struct MorphMotionTrack {
    pub keyframes: Vec<MorphKeyframe>,
}

impl View for MorphMotionTrack {
    type V = Seq<MorphKeyframe>;

    open spec fn view(&self) -> Seq<MorphKeyframe> {
        self.keyframes@
    }
}

impl MorphMotionTrack {
    pub open spec fn wf(&self) -> bool {
        morph_frames_sorted(self@)
    }

    /// An empty track.
    pub fn new() -> (r: Self)
        ensures
            r.wf(),
            r@.len() == 0,
    {
        MorphMotionTrack { keyframes: Vec::new() }
    }

    /// Index of the first keyframe whose frame is not below `f`.
    fn lower_bound(&self, f: u32) -> (i: usize)
        requires
            self.wf(),
        ensures
            i <= self@.len(),
            forall|j: int| 0 <= j < i ==> self@[j].frame_index < f,
            forall|j: int| i <= j < self@.len() ==> self@[j].frame_index >= f,
    {
        let mut i: usize = 0;
        while i < self.keyframes.len() && self.keyframes[i].frame_index < f
            invariant
                i <= self@.len(),
                forall|j: int| 0 <= j < i ==> self@[j].frame_index < f,
            decreases self@.len() - i,
        {
            i = i + 1;
        }
        i
    }

    /// Inserts `keyframe` at its frame; the keyframe it replaces, if any,
    /// is returned.
    pub fn insert_keyframe(&mut self, keyframe: MorphKeyframe) -> (r: Option<MorphKeyframe>)
        requires
            old(self).wf(),
        ensures
            final(self).wf(),
            morph_inserted(old(self)@, final(self)@, keyframe, r),
            final(self)@ == morph_put(old(self)@, keyframe),
    {
        let i = self.lower_bound(keyframe.frame_index);
        proof {
            lemma_morph_put(self@, keyframe, i as int);
        }
        if i < self.keyframes.len() && self.keyframes[i].frame_index == keyframe.frame_index {
            let prev = self.keyframes[i];
            self.keyframes.set(i, keyframe);
            Some(prev)
        } else {
            self.keyframes.insert(i, keyframe);
            None
        }
    }

    /// Removes the keyframe at frame `f` and returns it.
    pub fn remove_keyframe(&mut self, f: u32) -> (r: Option<MorphKeyframe>)
        requires
            old(self).wf(),
        ensures
            final(self).wf(),
    match r {
                Some(o) => exists|i: int|
                    0 <= i < old(self)@.len() && old(self)@[i].frame_index == f && o == old(self)@[i]
                        && final(self)@ == old(self)@.remove(i),
                None => (forall|i: int| 0 <= i < old(self)@.len() ==> old(self)@[i].frame_index != f)
                    && final(self)@ == old(self)@,
            },
    {
        let i = self.lower_bound(f);
        if i < self.keyframes.len() && self.keyframes[i].frame_index == f {
            let prev = self.keyframes.remove(i);
            Some(prev)
        } else {
            None
        }
    }

    /// The keyframe at frame `f`, if any.
    pub fn find(&self, f: u32) -> (r: Option<MorphKeyframe>)
        requires
            self.wf(),
        ensures
            match r {
                Some(k) => exists|i: int| 0 <= i < self@.len() && self@[i] == k && k.frame_index == f,
                None => forall|i: int| 0 <= i < self@.len() ==> self@[i].frame_index != f,
            },
    {
        let i = self.lower_bound(f);
        if i < self.keyframes.len() && self.keyframes[i].frame_index == f {
            Some(self.keyframes[i])
        } else {
            None
        }
    }

    /// Index of the first keyframe whose frame is above `f`.
    fn upper_bound(&self, f: u32) -> (i: usize)
        requires
            self.wf(),
        ensures
            i <= self@.len(),
            forall|j: int| 0 <= j < i ==> self@[j].frame_index <= f,
            forall|j: int| i <= j < self@.len() ==> self@[j].frame_index > f,
    {
        let mut i: usize = 0;
        while i < self.keyframes.len() && self.keyframes[i].frame_index <= f
            invariant
                i <= self@.len(),
                forall|j: int| 0 <= j < i ==> self@[j].frame_index <= f,
            decreases self@.len() - i,
        {
            i = i + 1;
        }
        i
    }

    /// The keyframes closest to `f`: the last one at or before `f` and the
    /// first one after it.
    pub fn search_closest_keyframes(&self, f: u32) -> (r: (Option<MorphKeyframe>, Option<MorphKeyframe>))
        requires
            self.wf(),
        ensures
            morph_prev_key(self@, f, match r.0 { Some(k) => Some(k.frame_index), None => None }),
            morph_next_key(self@, f, match r.1 { Some(k) => Some(k.frame_index), None => None }),
            r.0 matches Some(k) ==> exists|i: int| 0 <= i < self@.len() && self@[i] == k,
            r.1 matches Some(k) ==> exists|i: int| 0 <= i < self@.len() && self@[i] == k,
    {
        let i = self.upper_bound(f);
        let prev = if i > 0 {
            let k = self.keyframes[i - 1];
            assert(self@[i - 1] == k);
            Some(k)
        } else {
            None
        };
        let next = if i < self.keyframes.len() {
            let k = self.keyframes[i];
            assert(self@[i as int] == k);
            Some(k)
        } else {
            None
        };
        (prev, next)
    }

    /// The frame indices closest to `f`: the last keyframe at or before `f`
    /// and the first one after it.
    pub fn search_closest(&self, f: u32) -> (r: (Option<u32>, Option<u32>))
        requires
            self.wf(),
        ensures
            morph_prev_key(self@, f, r.0),
            morph_next_key(self@, f, r.1),
    {
        let (p, n) = self.search_closest_keyframes(f);
        let a = match p {
            Some(k) => Some(k.frame_index),
            None => None,
        };
        let b = match n {
            Some(k) => Some(k.frame_index),
            None => None,
        };
        (a, b)
    }

    /// Number of keyframes.
    pub fn len(&self) -> (r: usize)
        ensures
            r == self@.len(),
    {
        self.keyframes.len()
    }

    /// Whether the track holds no keyframe.
    pub fn is_empty(&self) -> (r: bool)
        ensures
            r == (self@.len() == 0),
    {
        self.keyframes.len() == 0
    }

    /// The largest frame index, or 0 for an empty track.
    pub fn max_frame_index(&self) -> (r: u32)
        requires
            self.wf(),
        ensures
            self@.len() == 0 ==> r == 0,
            self@.len() > 0 ==> r == self@.last().frame_index,
            forall|i: int| 0 <= i < self@.len() ==> self@[i].frame_index <= r,
    {
        let n = self.keyframes.len();
        if n == 0 {
            0
        } else {
            self.keyframes[n - 1].frame_index
        }
    }
}

/// `r` is how the sorted keyframes `s` are sampled at frame `f`.
pub open spec fn morph_sampled(s: Seq<MorphKeyframe>, f: u32, r: MorphSample) -> bool {
    match r {
        MorphSample::Zero => s.len() == 0,
        MorphSample::Weight { weight } => exists|i: int|
            0 <= i < s.len() && #[trigger] s[i].weight == weight && (s[i].frame_index == f
                || (s[i].frame_index < f && i == s.len() - 1)
                || (s[i].frame_index > f && i == 0)),
        MorphSample::Lerp { prev, next, offset, interval } => exists|i: int|
            0 <= i && i + 1 < s.len() && #[trigger] s[i].weight == prev && s[i + 1].weight == next
                && s[i].frame_index < f < s[i + 1].frame_index
                && offset == f - s[i].frame_index
                && interval == s[i + 1].frame_index - s[i].frame_index,
    }
}

/// What sampling a morph track at a whole frame amounts to; weights are
/// `f32` bit patterns and the blend coefficient is `offset / interval`.
#[derive(Clone, Copy, Debug, PartialEq, Eq)]
pub enum MorphSample {
    /// The track has no keyframe: weight 0.
    Zero,
    /// The weight of one keyframe: an exact match, or the nearest keyframe
    /// when the frame lies before the first or after the last.
    Weight { weight: u32 },
    /// Linear blend from the weight `prev` to the weight `next`.
    Lerp { prev: u32, next: u32, offset: u32, interval: u32 },
}

impl MorphMotionTrack {
    /// How the track is sampled at frame `f`: the keyframe at `f`; else a
    /// linear blend of the two keyframes around `f`; else the nearest
    /// keyframe; else zero.
    pub fn sample(&self, f: u32) -> (r: MorphSample)
        requires
            self.wf(),
        ensures
            morph_sampled(self@, f, r),
    {
        let n = self.keyframes.len();
        let i = self.upper_bound(f);
        if i > 0 && self.keyframes[i - 1].frame_index == f {
            MorphSample::Weight { weight: self.keyframes[i - 1].weight }
        } else if n == 0 {
            MorphSample::Zero
        } else if i == 0 {
            MorphSample::Weight { weight: self.keyframes[0].weight }
        } else if i == n {
            MorphSample::Weight { weight: self.keyframes[n - 1].weight }
        } else {
            let p = self.keyframes[i - 1];
            let q = self.keyframes[i];
            assert((i - 1) + 1 == i);
            MorphSample::Lerp {
                prev: p.weight,
                next: q.weight,
                offset: f - p.frame_index,
                interval: q.frame_index - p.frame_index,
            }
        }
    }
}

} // verus!
