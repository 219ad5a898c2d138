use mmd_engine::keyframe::{negate_bits, BoneKeyframe, InterpolationParams, MorphKeyframe};
use mmd_engine::motion_track::{BoneSample, MorphSample};
use mmd_engine::vmd::{VmdAnimation, VmdError, VmdFile};

fn header(v2: bool) -> Vec<u8> {
    let mut b = Vec::new();
    if v2 {
        b.extend_from_slice(b"Vocaloid Motion Data 0002");
    } else {
        b.extend_from_slice(b"Vocaloid Motion Data file");
    }
    b.extend_from_slice(&[0u8; 5]);
    b
}

fn name_field(name: &[u8], len: usize) -> Vec<u8> {
    let mut v = name.to_vec();
    v.resize(len, 0);
    v
}

fn bone_record(name: &[u8], frame: u32, t: [f32; 3], r: [f32; 4], interp: [u8; 64]) -> Vec<u8> {
    let mut b = name_field(name, 15);
    b.extend_from_slice(&frame.to_le_bytes());
    for x in t.iter().chain(r.iter()) {
        b.extend_from_slice(&x.to_le_bytes());
    }
    b.extend_from_slice(&interp);
    b
}

fn morph_record(name: &[u8], frame: u32, w: f32) -> Vec<u8> {
    let mut b = name_field(name, 15);
    b.extend_from_slice(&frame.to_le_bytes());
    b.extend_from_slice(&w.to_le_bytes());
    b
}

fn file(v2: bool, model: &[u8], bones: &[Vec<u8>], morphs: &[Vec<u8>]) -> Vec<u8> {
    let mut b = header(v2);
    b.extend_from_slice(&name_field(model, 20));
    b.extend_from_slice(&(bones.len() as u32).to_le_bytes());
    for r in bones {
        b.extend_from_slice(r);
    }
    b.extend_from_slice(&(morphs.len() as u32).to_le_bytes());
    for r in morphs {
        b.extend_from_slice(r);
    }
    b
}

#[test]
fn vmd_header_only_file_loads_empty() {
    let mut b = header(true);
    b.extend_from_slice(&[0u8; 20]);
    b.extend_from_slice(&0u32.to_le_bytes());
    b.extend_from_slice(&0u32.to_le_bytes());
    let v = VmdFile::load_from_bytes(&b).unwrap();
    assert_eq!(v.max_frame(), 0);
    assert!(v.motion.bone_tracks.is_empty());
    assert!(v.motion.morph_tracks.is_empty());
    assert_eq!(v.model_name, "");
    let a = VmdAnimation::load_from_bytes(&b).unwrap();
    assert_eq!(a.max_frame(), 0);
    assert!(a.bone_track_names().is_empty());
}

#[test]
fn vmd_first_version_header_accepted() {
    let b = file(false, b"miku", &[], &[]);
    let v = VmdFile::load_from_bytes(&b).unwrap();
    assert_eq!(v.model_name, "miku");
}

#[test]
fn vmd_trailing_sections_ignored() {
    let mut b = file(true, b"m", &[], &[]);
    b.extend_from_slice(&[1, 2, 3, 4, 5]);
    assert!(VmdFile::load_from_bytes(&b).is_ok());
}

#[test]
fn vmd_bad_header_rejected() {
    let mut b = file(true, b"m", &[], &[]);
    b[21] = b'X';
    assert_eq!(VmdFile::load_from_bytes(&b).unwrap_err(), VmdError::InvalidHeader);
}

#[test]
fn vmd_short_inputs_truncated() {
    assert_eq!(VmdFile::load_from_bytes(&header(true)[..20]).unwrap_err(), VmdError::Truncated);
    let b = file(true, b"m", &[], &[]);
    assert_eq!(VmdFile::load_from_bytes(&b[..b.len() - 1]).unwrap_err(), VmdError::Truncated);
    let r = bone_record(b"a", 1, [0.0; 3], [0.0, 0.0, 0.0, 1.0], [0u8; 64]);
    let b = file(true, b"m", &[r], &[]);
    assert_eq!(VmdFile::load_from_bytes(&b[..60]).unwrap_err(), VmdError::Truncated);
    let m = morph_record(b"a", 1, 0.5);
    let b = file(true, b"m", &[], &[m]);
    assert_eq!(VmdFile::load_from_bytes(&b[..b.len() - 3]).unwrap_err(), VmdError::Truncated);
}

#[test]
fn vmd_bone_record_decoded_in_engine_coordinates() {
    let mut interp = [0u8; 64];
    for (i, x) in interp.iter_mut().enumerate() {
        *x = i as u8;
    }
    let r = bone_record(b"bone", 7, [1.0, 2.0, 3.0], [0.1, 0.2, 0.3, 0.9], interp);
    let b = file(true, b"m", &[r], &[]);
    let v = VmdFile::load_from_bytes(&b).unwrap();
    assert_eq!(v.max_frame(), 7);
    let t = &v.motion.bone_tracks[0];
    assert_eq!(t.name, "bone");
    let k: BoneKeyframe = t.track.keyframes[0];
    assert_eq!(k.frame_index, 7);
    assert_eq!(f32::from_bits(k.translation.x), 1.0);
    assert_eq!(f32::from_bits(k.translation.y), 2.0);
    assert_eq!(f32::from_bits(k.translation.z), -3.0);
    assert_eq!(f32::from_bits(k.orientation.x), 0.1);
    assert_eq!(f32::from_bits(k.orientation.z), -0.3);
    assert_eq!(f32::from_bits(k.orientation.w), -0.9);
    assert_eq!(k.interpolation_x, InterpolationParams { x1: 0, y1: 4, x2: 8, y2: 12 });
    assert_eq!(k.interpolation_y, InterpolationParams { x1: 1, y1: 5, x2: 9, y2: 13 });
    assert_eq!(k.interpolation_z, InterpolationParams { x1: 2, y1: 6, x2: 10, y2: 14 });
    assert_eq!(k.interpolation_r, InterpolationParams { x1: 3, y1: 7, x2: 11, y2: 15 });
    assert!(k.is_physics_simulation_enabled);
}

#[test]
fn vmd_shift_jis_names_decoded() {
    // "センター" in Shift-JIS, then a zero byte and garbage.
    let name = [0x83, 0x5A, 0x83, 0x93, 0x83, 0x5E, 0x81, 0x5B, 0, 0x41];
    let r = bone_record(&name, 0, [0.0; 3], [0.0, 0.0, 0.0, 1.0], [0u8; 64]);
    let b = file(true, &name, &[r], &[]);
    let v = VmdFile::load_from_bytes(&b).unwrap();
    assert_eq!(v.model_name, "センター");
    let a = VmdAnimation::from_vmd_file(v);
    assert!(a.contains_bone_track("センター"));
    assert!(!a.contains_bone_track("A"));
    assert_eq!(a.bone_track_names(), vec!["センター".to_string()]);
}

#[test]
fn vmd_records_grouped_by_name_in_frame_order() {
    let z = [0.0f32; 3];
    let q = [0.0, 0.0, 0.0, 1.0];
    let bones = vec![
        bone_record(b"b", 10, z, q, [0u8; 64]),
        bone_record(b"a", 3, z, q, [0u8; 64]),
        bone_record(b"b", 2, z, q, [0u8; 64]),
        bone_record(b"b", 10, [5.0, 0.0, 0.0], q, [0u8; 64]),
    ];
    let morphs = vec![morph_record(b"smile", 30, 1.0), morph_record(b"smile", 0, 0.0)];
    let b = file(true, b"m", &bones, &morphs);
    let a = VmdAnimation::load_from_bytes(&b).unwrap();
    assert_eq!(a.bone_track_names(), vec!["b".to_string(), "a".to_string()]);
    assert_eq!(a.morph_track_names(), vec!["smile".to_string()]);
    assert!(a.contains_morph_track("smile"));
    assert_eq!(a.max_frame(), 30);
    let t = &a.motion.bone_tracks[0].track;
    let frames: Vec<u32> = t.keyframes.iter().map(|k| k.frame_index).collect();
    assert_eq!(frames, vec![2, 10]);
    assert_eq!(f32::from_bits(t.keyframes[1].translation.x), 5.0);
    let mt = &a.motion.morph_tracks[0].track;
    assert_eq!(mt.keyframes[0], MorphKeyframe { frame_index: 0, weight: 0.0f32.to_bits() });
}

#[test]
fn vmd_bone_keyframe_linear_sample_midway() {
    let mut interp = [0u8; 64];
    for i in 0..4 {
        interp[i] = 20;
        interp[4 + i] = 20;
        interp[8 + i] = 107;
        interp[12 + i] = 107;
    }
    let q = [0.0, 0.0, 0.0, 1.0];
    let bones = vec![
        bone_record(b"b", 0, [0.0, 0.0, 0.0], q, interp),
        bone_record(b"b", 10, [10.0, 0.0, 0.0], q, interp),
    ];
    let a = VmdAnimation::load_from_bytes(&file(true, b"m", &bones, &[])).unwrap();
    match a.bone_sample("b", 5) {
        BoneSample::Blend { prev, next, offset, interval } => {
            assert_eq!((offset, interval), (5, 10));
            assert_eq!(f32::from_bits(prev.translation.x), 0.0);
            assert_eq!(f32::from_bits(next.translation.x), 10.0);
            assert_eq!(next.interpolation_x, InterpolationParams { x1: 20, y1: 20, x2: 107, y2: 107 });
        }
        other => panic!("unexpected sample {:?}", other),
    }
    assert_eq!(a.bone_sample("missing", 5), BoneSample::Identity);
    assert_eq!(a.morph_sample("missing", 5), MorphSample::Zero);
}

#[test]
fn negate_bits_flips_sign() {
    assert_eq!(f32::from_bits(negate_bits(1.5f32.to_bits())), -1.5);
    assert_eq!(f32::from_bits(negate_bits((-2.0f32).to_bits())), 2.0);
}
