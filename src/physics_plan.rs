//! Bookkeeping of the physics bridge: collision filters, which joints can
//! be built, which bones dynamic bodies drive, and which bodies each sync
//! step touches. The rigid-body engine itself stays outside.
use vstd::prelude::*;
use crate::pmx::RigidBodyMode;

verus! {

/// How a rigid body relates to its bone during simulation.
#[derive(Clone, Copy, Debug, PartialEq, Eq)]
pub enum PhysicsMode {
    /// Kinematic: placed from the bone every frame.
    FollowBone,
    /// Simulated; its pose is written back to the bone.
    Physics,
    /// Simulated; only its rotation is written back, the bone keeps its
    /// position.
    PhysicsWithBone,
}

impl PhysicsMode {
    /// The simulation mode of a PMX rigid body mode.
    pub fn from_rigid_body_mode(m: RigidBodyMode) -> (r: PhysicsMode)
        ensures
            (m is Static) == (r is FollowBone),
            (m is Dynamic) == (r is Physics),
            (m is DynamicWithBonePosition) == (r is PhysicsWithBone),
    {
        match m {
            RigidBodyMode::Static => PhysicsMode::FollowBone,
            RigidBodyMode::Dynamic => PhysicsMode::Physics,
            RigidBodyMode::DynamicWithBonePosition => PhysicsMode::PhysicsWithBone,
        }
    }

    /// Whether the body is simulated (anything but `FollowBone`).
    pub fn is_dynamic(&self) -> (r: bool)
        ensures
            r == !(*self is FollowBone),
    {
        match self {
            PhysicsMode::FollowBone => false,
            _ => true,
        }
    }
}

/// Collision group bit of a body in group `g`; groups above 15 share the
/// last bit.
pub open spec fn group_bit(g: u8) -> i32 {
    if g >= 15 {
        0x8000
    } else {
        (1u32 << (g as u32)) as i32
    }
}

/// Collision filter of a body: its group bit and the groups it collides
/// with.
pub fn collision_filter(group: u8, mask: u16) -> (r: (i32, i32))
    ensures
        r.0 == group_bit(group),
        r.1 as int == mask as int,
{
    let bit: i32 = if group >= 15 {
        0x8000
    } else {
        let s = group as u32;
        let v: u32 = 1u32 << s;
        assert(v <= 0x4000) by (bit_vector)
            requires
                s < 15,
                v == 1u32 << s,
        ;
        v as i32
    };
    (bit, mask as i32)
}

/// The joint between bodies `a` and `b` can be built: both name bodies
/// that were built, and they differ.
pub open spec fn joint_connects(a: i32, b: i32, built: Seq<bool>) -> bool {
    0 <= a < built.len() && 0 <= b < built.len() && a != b && built[a as int] && built[b as int]
}

/// The body pair of a joint, when it can be built.
pub fn joint_body_pair(a: i32, b: i32, built: &Vec<bool>) -> (r: Option<(usize, usize)>)
    ensures
        match r {
            Some((x, y)) => joint_connects(a, b, built@) && x as int == a && y as int == b,
            None => !joint_connects(a, b, built@),
        },
{
    if a < 0 || b < 0 || a == b {
        return None;
    }
    let x = a as usize;
    let y = b as usize;
    if x >= built.len() || y >= built.len() {
        return None;
    }
    if built[x] && built[y] {
        Some((x, y))
    } else {
        None
    }
}

/// Bone of body `i` when it is simulated and names a bone.
pub open spec fn drives_bone(modes: Seq<PhysicsMode>, bones: Seq<i32>, i: int) -> bool {
    !(modes[i] is FollowBone) && bones[i] >= 0
}

fn contains_index(v: &Vec<usize>, x: usize) -> (r: bool)
    ensures
        r == exists|m: int| 0 <= m < v@.len() && v@[m] == x,
{
    let mut k: usize = 0;
    while k < v.len()
        invariant
            k <= v@.len(),
            forall|m: int| 0 <= m < k ==> v@[m] != x,
        decreases v@.len() - k,
    {
        if v[k] == x {
            return true;
        }
        k = k + 1;
    }
    false
}

/// Some simulated body drives bone `x`.
pub open spec fn driven(modes: Seq<PhysicsMode>, bones: Seq<i32>, x: int) -> bool {
    exists|i: int| 0 <= i < bones.len() && drives_bone(modes, bones, i) && bones[i] as int == x
}

/// Bones driven by simulated bodies, each listed once.
pub fn dynamic_bone_indices(modes: &Vec<PhysicsMode>, bones: &Vec<i32>) -> (r: Vec<usize>)
    requires
        modes@.len() == bones@.len(),
    ensures
        forall|k: int, l: int| 0 <= k < l < r@.len() ==> r@[k] != r@[l],
        forall|k: int| 0 <= k < r@.len() ==> driven(modes@, bones@, #[trigger] r@[k] as int),
        forall|i: int| 0 <= i < bones@.len() && drives_bone(modes@, bones@, i) ==> exists|k: int|
            0 <= k < r@.len() && r@[k] as int == bones@[i] as int,
{
    let mut out: Vec<usize> = Vec::new();
    let mut i: usize = 0;
    while i < bones.len()
        invariant
            modes@.len() == bones@.len(),
            i <= bones@.len(),
            forall|k: int, l: int| 0 <= k < l < out@.len() ==> out@[k] != out@[l],
            forall|k: int| 0 <= k < out@.len() ==> driven(modes@, bones@, #[trigger] out@[k] as int),
            forall|j: int| 0 <= j < i && drives_bone(modes@, bones@, j) ==> exists|k: int|
                0 <= k < out@.len() && out@[k] as int == bones@[j] as int,
        decreases bones@.len() - i,
    {
        if modes[i].is_dynamic() && bones[i] >= 0 {
            let b = bones[i] as usize;
            let found = contains_index(&out, b);
            if found {
                proof {
                    let m = choose|m: int| 0 <= m < out@.len() && out@[m] == b;
                    assert(out@[m] as int == bones@[i as int] as int);
                }
            }
            if !found {
                let ghost o = out@;
                out.push(b);
                proof {
                    assert(out@[o.len() as int] == b);
                    assert forall|k: int| 0 <= k < out@.len() implies driven(modes@, bones@, #[trigger] out@[k] as int) by {
                        if k < o.len() {
                            assert(out@[k] == o[k]);
                        } else {
                            assert(drives_bone(modes@, bones@, i as int));
                            assert(bones@[i as int] as int == out@[k] as int);
                        }
                    }
                    assert forall|j: int| 0 <= j <= i && drives_bone(modes@, bones@, j) implies exists|k: int|
                        0 <= k < out@.len() && out@[k] as int == bones@[j] as int by {
                        if j < i {
                            let k = choose|k: int| 0 <= k < o.len() && o[k] as int == bones@[j] as int;
                            assert(out@[k] == o[k]);
                        } else {
                            assert(out@[o.len() as int] as int == bones@[j] as int);
                        }
                    }
                }
            }
        }
        i = i + 1;
    }
    out
}

/// Body `i` is placed from its bone before a step: it follows its bone,
/// was built, and its bone is one of the `bone_count` bones.
pub open spec fn synced_from_bone(modes: Seq<PhysicsMode>, bones: Seq<i32>, built: Seq<bool>, bone_count: int, i: int) -> bool {
    modes[i] is FollowBone && built[i] && 0 <= bones[i] < bone_count
}

/// Body `i` writes its pose back to its bone after a step.
pub open spec fn synced_to_bone(modes: Seq<PhysicsMode>, bones: Seq<i32>, built: Seq<bool>, bone_count: int, i: int) -> bool {
    !(modes[i] is FollowBone) && built[i] && 0 <= bones[i] < bone_count
}

/// The bodies one sync step touches, in order: those that follow their
/// bone when `to_bones` is false, the simulated ones when it is true.
pub fn sync_targets(
    modes: &Vec<PhysicsMode>,
    bones: &Vec<i32>,
    built: &Vec<bool>,
    bone_count: usize,
    to_bones: bool,
) -> (r: Vec<usize>)
    requires
        modes@.len() == bones@.len(),
        built@.len() == bones@.len(),
    ensures
        forall|k: int, l: int| 0 <= k < l < r@.len() ==> r@[k] < r@[l],
        forall|k: int| 0 <= k < r@.len() ==> r@[k] < bones@.len(),
        forall|i: int| 0 <= i < bones@.len() ==> ((exists|k: int| 0 <= k < r@.len() && r@[k] == i) <==> if to_bones {
            synced_to_bone(modes@, bones@, built@, bone_count as int, i)
        } else {
            synced_from_bone(modes@, bones@, built@, bone_count as int, i)
        }),
{
    let mut out: Vec<usize> = Vec::new();
    let mut i: usize = 0;
    while i < bones.len()
        invariant
            modes@.len() == bones@.len(),
            built@.len() == bones@.len(),
            i <= bones@.len(),
            forall|k: int, l: int| 0 <= k < l < out@.len() ==> out@[k] < out@[l],
            forall|k: int| 0 <= k < out@.len() ==> out@[k] < i,
            forall|j: int| 0 <= j < i ==> ((exists|k: int| 0 <= k < out@.len() && out@[k] == j) <==> if to_bones {
                synced_to_bone(modes@, bones@, built@, bone_count as int, j)
            } else {
                synced_from_bone(modes@, bones@, built@, bone_count as int, j)
            }),
        decreases bones@.len() - i,
    {
        let b = bones[i];
        let picked = modes[i].is_dynamic() == to_bones && built[i] && b >= 0 && (b as usize) < bone_count;
        if picked {
            let ghost o = out@;
            out.push(i);
            proof {
                assert forall|j: int| 0 <= j <= i implies ((exists|k: int| 0 <= k < out@.len() && out@[k] == j) <==> if to_bones {
                    synced_to_bone(modes@, bones@, built@, bone_count as int, j)
                } else {
                    synced_from_bone(modes@, bones@, built@, bone_count as int, j)
                }) by {
                    if j < i {
                        if exists|k: int| 0 <= k < out@.len() && out@[k] == j {
                            let k = choose|k: int| 0 <= k < out@.len() && out@[k] == j;
                            assert(k < o.len());
                            assert(o[k] == j);
                        }
                        if exists|k: int| 0 <= k < o.len() && o[k] == j {
                            let k = choose|k: int| 0 <= k < o.len() && o[k] == j;
                            assert(out@[k] == j);
                        }
                    } else {
                        assert(out@[o.len() as int] == j);
                    }
                }
            }
        } else {
            proof {
                assert forall|j: int| 0 <= j <= i implies ((exists|k: int| 0 <= k < out@.len() && out@[k] == j) <==> if to_bones {
                    synced_to_bone(modes@, bones@, built@, bone_count as int, j)
                } else {
                    synced_from_bone(modes@, bones@, built@, bone_count as int, j)
                }) by {
                    if j == i {
                        if exists|k: int| 0 <= k < out@.len() && out@[k] == j {
                            let k = choose|k: int| 0 <= k < out@.len() && out@[k] == j;
                        }
                    }
                }
            }
        }
        i = i + 1;
    }
    out
}

} // verus!
