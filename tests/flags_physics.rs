use mmd_engine::bone_flags::{
    BoneFlags, APPEND_LOCAL, APPEND_ROTATE, DEFORM_AFTER_PHYSICS, FIXED_AXIS, IK, IK_ENABLED, LOCAL_AXIS, MOVABLE,
    ROTATABLE,
};
use mmd_engine::morph::MorphKind;
use mmd_engine::physics_plan::{
    collision_filter, dynamic_bone_indices, joint_body_pair, sync_targets, PhysicsMode,
};
use mmd_engine::pmx::RigidBodyMode;

#[test]
fn pmx_bone_flags_mapped() {
    // rotatable | movable | IK | add rotation | physical transform, plus
    // connection and display bits the engine ignores.
    let f = BoneFlags::from_pmx_bits(0x0002 | 0x0004 | 0x0020 | 0x0100 | 0x1000 | 0x0001 | 0x0008);
    assert_eq!(f.bits, ROTATABLE | MOVABLE | IK | APPEND_ROTATE | DEFORM_AFTER_PHYSICS);
    let g = BoneFlags::from_pmx_bits(0x0080 | 0x0400 | 0x0800);
    assert_eq!(g.bits, APPEND_LOCAL | FIXED_AXIS | LOCAL_AXIS);
    assert_eq!(BoneFlags::from_pmx_bits(0).bits, 0);
}

#[test]
fn bone_flags_set_operations() {
    let mut f = BoneFlags::empty();
    assert!(!f.contains(IK_ENABLED));
    f.insert(IK_ENABLED | ROTATABLE);
    assert!(f.contains(IK_ENABLED));
    assert!(f.contains(ROTATABLE | IK_ENABLED));
    f.remove(IK_ENABLED);
    assert!(!f.contains(IK_ENABLED));
    f.set(MOVABLE, true);
    assert_eq!(f.bits, ROTATABLE | MOVABLE);
    f.set(ROTATABLE, false);
    assert_eq!(f, BoneFlags::from_bits(MOVABLE));
}

#[test]
fn collision_filters() {
    assert_eq!(collision_filter(0, 0xffff), (1, 0xffff));
    assert_eq!(collision_filter(3, 0x00f0), (8, 0x00f0));
    assert_eq!(collision_filter(15, 1), (0x8000, 1));
    assert_eq!(collision_filter(200, 2), (0x8000, 2));
}

#[test]
fn joints_need_two_distinct_built_bodies() {
    let built = vec![true, true, false];
    assert_eq!(joint_body_pair(0, 1, &built), Some((0, 1)));
    assert_eq!(joint_body_pair(1, 1, &built), None);
    assert_eq!(joint_body_pair(0, 2, &built), None);
    assert_eq!(joint_body_pair(-1, 0, &built), None);
    assert_eq!(joint_body_pair(0, 3, &built), None);
}

#[test]
fn dynamic_bones_listed_once() {
    let modes = vec![
        PhysicsMode::from_rigid_body_mode(RigidBodyMode::Static),
        PhysicsMode::from_rigid_body_mode(RigidBodyMode::Dynamic),
        PhysicsMode::from_rigid_body_mode(RigidBodyMode::DynamicWithBonePosition),
        PhysicsMode::Physics,
        PhysicsMode::Physics,
    ];
    let bones = vec![4, 7, 2, 7, -1];
    let mut got = dynamic_bone_indices(&modes, &bones);
    got.sort();
    assert_eq!(got, vec![2, 7]);
    assert!(!modes[0].is_dynamic());
    assert!(modes[2].is_dynamic());
}

#[test]
fn sync_steps_pick_their_bodies() {
    let modes = vec![PhysicsMode::FollowBone, PhysicsMode::Physics, PhysicsMode::FollowBone, PhysicsMode::PhysicsWithBone];
    let bones = vec![0, 1, 9, 2];
    let built = vec![true, true, true, false];
    assert_eq!(sync_targets(&modes, &bones, &built, 3, false), vec![0]);
    assert_eq!(sync_targets(&modes, &bones, &built, 3, true), vec![1]);
    assert_eq!(sync_targets(&modes, &bones, &built, 10, false), vec![0, 2]);
}

#[test]
fn morph_kinds_that_expand() {
    assert!(MorphKind::Group.expands());
    assert!(MorphKind::Flip.expands());
    assert!(!MorphKind::Material.expands());
    assert!(!MorphKind::Impulse.expands());
}
