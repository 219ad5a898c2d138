use mmd_engine::keyframe::{BoneKeyframe, InterpolationParams, MorphKeyframe, QuatBits, Vec3Bits};
use mmd_engine::motion::Motion;
use mmd_engine::motion_track::{BoneMotionTrack, BoneSample, MorphMotionTrack, MorphSample};

fn linear() -> InterpolationParams {
    InterpolationParams { x1: 20, y1: 20, x2: 107, y2: 107 }
}

fn bone(frame: u32, x: f32, physics: bool) -> BoneKeyframe {
    BoneKeyframe {
        frame_index: frame,
        translation: Vec3Bits { x: x.to_bits(), y: 0, z: 0 },
        orientation: QuatBits { x: 0, y: 0, z: 0, w: 1.0f32.to_bits() },
        interpolation_x: linear(),
        interpolation_y: linear(),
        interpolation_z: linear(),
        interpolation_r: linear(),
        is_physics_simulation_enabled: physics,
    }
}

fn morph(frame: u32, w: f32) -> MorphKeyframe {
    MorphKeyframe { frame_index: frame, weight: w.to_bits() }
}

#[test]
fn bone_track_insert_replace_remove() {
    let mut t = BoneMotionTrack::new();
    assert!(t.is_empty());
    assert_eq!(t.insert_keyframe(bone(10, 1.0, true)), None);
    assert_eq!(t.insert_keyframe(bone(0, 0.0, true)), None);
    assert_eq!(t.insert_keyframe(bone(5, 0.5, true)), None);
    assert_eq!(t.len(), 3);
    assert_eq!(t.insert_keyframe(bone(5, 9.0, true)), Some(bone(5, 0.5, true)));
    assert_eq!(t.len(), 3);
    let frames: Vec<u32> = t.keyframes.iter().map(|k| k.frame_index).collect();
    assert_eq!(frames, vec![0, 5, 10]);
    assert_eq!(t.find(5), Some(bone(5, 9.0, true)));
    assert_eq!(t.find(6), None);
    assert_eq!(t.max_frame_index(), 10);
    assert_eq!(t.remove_keyframe(5), Some(bone(5, 9.0, true)));
    assert_eq!(t.remove_keyframe(5), None);
    assert_eq!(t.len(), 2);
}

#[test]
fn bone_track_search_closest() {
    let mut t = BoneMotionTrack::new();
    assert_eq!(t.search_closest(3), (None, None));
    t.insert_keyframe(bone(0, 0.0, true));
    t.insert_keyframe(bone(10, 1.0, true));
    assert_eq!(t.search_closest(0), (Some(0), Some(10)));
    assert_eq!(t.search_closest(5), (Some(0), Some(10)));
    assert_eq!(t.search_closest(10), (Some(10), None));
    assert_eq!(t.search_closest(20), (Some(10), None));
    let (p, n) = t.search_closest_keyframes(4);
    assert_eq!(p.unwrap().frame_index, 0);
    assert_eq!(n.unwrap().frame_index, 10);
    assert_eq!(BoneMotionTrack::new().max_frame_index(), 0);
}

#[test]
fn bone_track_sample_cases() {
    let mut t = BoneMotionTrack::new();
    assert_eq!(t.sample(3), BoneSample::Identity);
    assert!(!BoneSample::Identity.enable_physics());
    t.insert_keyframe(bone(5, 1.0, true));
    t.insert_keyframe(bone(15, 2.0, true));
    assert_eq!(t.sample(5), BoneSample::Key { keyframe: bone(5, 1.0, true) });
    assert_eq!(t.sample(0), BoneSample::Key { keyframe: bone(5, 1.0, true) });
    assert_eq!(t.sample(40), BoneSample::Key { keyframe: bone(15, 2.0, true) });
    let s = t.sample(9);
    assert_eq!(
        s,
        BoneSample::Blend { prev: bone(5, 1.0, true), next: bone(15, 2.0, true), offset: 4, interval: 10 }
    );
    assert!(s.enable_physics());
    assert!(!s.disable_physics());
}

#[test]
fn bone_track_physics_handoff() {
    let mut t = BoneMotionTrack::new();
    t.insert_keyframe(bone(0, 0.0, true));
    t.insert_keyframe(bone(4, 1.0, false));
    let s = t.sample(1);
    assert_eq!(s, BoneSample::Handoff { next: bone(4, 1.0, false), offset: 1, interval: 4 });
    assert!(!s.enable_physics());
    assert!(s.disable_physics());
    let mut u = BoneMotionTrack::new();
    u.insert_keyframe(bone(0, 0.0, false));
    u.insert_keyframe(bone(4, 1.0, true));
    let s = u.sample(1);
    assert!(matches!(s, BoneSample::Blend { .. }));
    assert!(!s.enable_physics());
}

#[test]
fn morph_track_operations_and_sample() {
    let mut t = MorphMotionTrack::new();
    assert_eq!(t.sample(1), MorphSample::Zero);
    t.insert_keyframe(morph(10, 1.0));
    t.insert_keyframe(morph(0, 0.0));
    assert_eq!(t.insert_keyframe(morph(10, 0.5)), Some(morph(10, 1.0)));
    assert_eq!(t.sample(10), MorphSample::Weight { weight: 0.5f32.to_bits() });
    assert_eq!(t.sample(11), MorphSample::Weight { weight: 0.5f32.to_bits() });
    assert_eq!(
        t.sample(3),
        MorphSample::Lerp { prev: 0.0f32.to_bits(), next: 0.5f32.to_bits(), offset: 3, interval: 10 }
    );
    assert_eq!(t.search_closest(3), (Some(0), Some(10)));
    assert_eq!(t.max_frame_index(), 10);
    assert_eq!(t.remove_keyframe(0), Some(morph(0, 0.0)));
    assert_eq!(t.find(0), None);
    assert_eq!(t.len(), 1);
}

#[test]
fn motion_groups_keyframes_by_name() {
    let mut m = Motion::new();
    assert_eq!(m.duration(), 0);
    m.insert_bone_keyframe("arm", bone(3, 0.0, true));
    m.insert_bone_keyframe("leg", bone(8, 0.0, true));
    m.insert_bone_keyframe("arm", bone(1, 0.0, true));
    m.insert_morph_keyframe("blink", morph(12, 1.0));
    assert_eq!(m.bone_track_names(), vec!["arm".to_string(), "leg".to_string()]);
    assert_eq!(m.morph_track_names(), vec!["blink".to_string()]);
    assert_eq!(m.bone_track("arm").unwrap().len(), 2);
    assert!(m.bone_track("hand").is_none());
    assert!(m.contains_bone_track("leg"));
    assert!(!m.contains_morph_track("leg"));
    assert_eq!(m.duration(), 12);
    assert_eq!(m.sample_bone("arm", 1), BoneSample::Key { keyframe: bone(1, 0.0, true) });
    assert_eq!(m.sample_morph("blink", 0), MorphSample::Weight { weight: 1.0f32.to_bits() });
}
