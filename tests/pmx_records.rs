use mmd_engine::bytes::{read_i16_le, read_i32_le, read_i8, read_u16_le, read_u32_le, read_u8};
use mmd_engine::pmx::{
    read_display_frame, read_joint, read_rigid_body, DisplayFrameElement, DisplayFrameReader, JointReader,
    JointType, RigidBodyMode, RigidBodyReader, RigidBodyShape,
};
use mmd_engine::pmx_text::{read_index, read_text, IndexSize, PmxError, Settings, TextEncoding};

fn settings(enc: TextEncoding) -> Settings {
    Settings {
        text_encoding: enc,
        bone_index_size: IndexSize::I16,
        morph_index_size: IndexSize::I8,
        rigidbody_index_size: IndexSize::I32,
    }
}

fn text_utf16(s: &str) -> Vec<u8> {
    let units: Vec<u16> = s.encode_utf16().collect();
    let mut b = ((units.len() * 2) as i32).to_le_bytes().to_vec();
    for u in units {
        b.extend_from_slice(&u.to_le_bytes());
    }
    b
}

fn text_utf8(s: &str) -> Vec<u8> {
    let mut b = (s.len() as i32).to_le_bytes().to_vec();
    b.extend_from_slice(s.as_bytes());
    b
}

fn floats(n: usize, start: f32) -> Vec<u8> {
    let mut b = Vec::new();
    for i in 0..n {
        b.extend_from_slice(&(start + i as f32).to_le_bytes());
    }
    b
}

fn rigid_body_bytes(shape: u8, mode: u8) -> Vec<u8> {
    let mut b = text_utf16("頭");
    b.extend(text_utf16("head"));
    b.extend_from_slice(&(-1i16).to_le_bytes());
    b.push(3);
    b.extend_from_slice(&0xfffeu16.to_le_bytes());
    b.push(shape);
    b.extend(floats(14, 1.0));
    b.push(mode);
    b
}

#[test]
fn integer_reads() {
    let b = [0x01, 0x02, 0x03, 0x84, 0xff];
    assert_eq!(read_u32_le(&b, 0), Some(0x8403_0201));
    assert_eq!(read_i32_le(&b, 0), Some(0x8403_0201u32 as i32));
    assert_eq!(read_u32_le(&b, 2), None);
    assert_eq!(read_u16_le(&b, 3), Some(0xff84));
    assert_eq!(read_i16_le(&b, 3), Some(-124));
    assert_eq!(read_i8(&b, 4), Some(-1));
    assert_eq!(read_u8(&b, 5), None);
    assert_eq!(read_index(&b, 3, IndexSize::I16), Some(-124));
    assert_eq!(read_index(&b, 4, IndexSize::I32), None);
}

#[test]
fn text_fields_decode() {
    let b = text_utf16("初音");
    let (s, e) = read_text(&b, 0, TextEncoding::Utf16Le).unwrap();
    assert_eq!(s, "初音");
    assert_eq!(e, b.len());
    let b = text_utf8("ミク");
    assert_eq!(read_text(&b, 0, TextEncoding::Utf8).unwrap().0, "ミク");
    let bad = [2, 0, 0, 0, 0xff, 0xfe];
    assert_eq!(read_text(&bad, 0, TextEncoding::Utf8), Err(PmxError::DecodeText));
    let odd = [1, 0, 0, 0, 0x41];
    assert_eq!(read_text(&odd, 0, TextEncoding::Utf16Le), Err(PmxError::DecodeText));
    let short = [9, 0, 0, 0, 0x41];
    assert_eq!(read_text(&short, 0, TextEncoding::Utf8), Err(PmxError::UnexpectedEnd));
    let negative = (-1i32).to_le_bytes();
    assert_eq!(read_text(&negative, 0, TextEncoding::Utf8), Err(PmxError::UnexpectedEnd));
}

#[test]
fn rigid_body_record() {
    let b = rigid_body_bytes(1, 2);
    let (rb, e) = read_rigid_body(&b, 0, settings(TextEncoding::Utf16Le)).unwrap();
    assert_eq!(e, b.len());
    assert_eq!(rb.local_name, "頭");
    assert_eq!(rb.universal_name, "head");
    assert_eq!(rb.bone_index, -1);
    assert_eq!(rb.group, 3);
    assert_eq!(rb.un_collision_group_flag, 0xfffe);
    assert_eq!(rb.shape, RigidBodyShape::Box);
    assert_eq!(f32::from_bits(rb.size.x), 1.0);
    assert_eq!(f32::from_bits(rb.rotation.z), 9.0);
    assert_eq!(f32::from_bits(rb.mass), 10.0);
    assert_eq!(f32::from_bits(rb.friction), 14.0);
    assert_eq!(rb.mode, RigidBodyMode::DynamicWithBonePosition);
}

#[test]
fn rigid_body_record_errors() {
    let st = settings(TextEncoding::Utf16Le);
    assert_eq!(read_rigid_body(&rigid_body_bytes(3, 0), 0, st).unwrap_err(), PmxError::InvalidCode);
    assert_eq!(read_rigid_body(&rigid_body_bytes(0, 7), 0, st).unwrap_err(), PmxError::InvalidCode);
    let b = rigid_body_bytes(0, 0);
    assert_eq!(read_rigid_body(&b[..b.len() - 1], 0, st).unwrap_err(), PmxError::UnexpectedEnd);
    assert_eq!(RigidBodyShape::from_code(2), Some(RigidBodyShape::Capsule));
    assert_eq!(RigidBodyMode::from_code(0), Some(RigidBodyMode::Static));
    assert_eq!(RigidBodyMode::from_code(3), None);
}

fn joint_bytes(kind: u8) -> Vec<u8> {
    let mut b = text_utf8("j");
    b.extend(text_utf8("joint"));
    b.push(kind);
    b.extend_from_slice(&4i32.to_le_bytes());
    b.extend_from_slice(&7i32.to_le_bytes());
    b.extend(floats(24, 0.0));
    b
}

#[test]
fn joint_record() {
    let b = joint_bytes(5);
    let (j, e) = read_joint(&b, 0, settings(TextEncoding::Utf8)).unwrap();
    assert_eq!(e, b.len());
    assert_eq!(j.local_name, "j");
    assert_eq!(j.type_, JointType::Hinge);
    assert_eq!((j.rigid_body_a_index, j.rigid_body_b_index), (4, 7));
    assert_eq!(f32::from_bits(j.position.x), 0.0);
    assert_eq!(f32::from_bits(j.rotation_spring.z), 23.0);
    assert_eq!(read_joint(&joint_bytes(6), 0, settings(TextEncoding::Utf8)).unwrap_err(), PmxError::InvalidCode);
    assert_eq!(JointType::from_code(0), Some(JointType::Spring6DOF));
}

fn display_frame_bytes() -> Vec<u8> {
    let mut b = text_utf8("Root");
    b.extend(text_utf8("Root"));
    b.push(1);
    b.extend_from_slice(&2i32.to_le_bytes());
    b.push(0);
    b.extend_from_slice(&300i16.to_le_bytes());
    b.push(1);
    b.push(0xfe);
    b
}

#[test]
fn display_frame_record() {
    let b = display_frame_bytes();
    let (d, e) = read_display_frame(&b, 0, settings(TextEncoding::Utf8)).unwrap();
    assert_eq!(e, b.len());
    assert_eq!(d.special_flag, 1);
    assert_eq!(
        d.elements,
        vec![
            DisplayFrameElement { target_type: 0, target_index: 300 },
            DisplayFrameElement { target_type: 1, target_index: -2 },
        ]
    );
    assert_eq!(
        read_display_frame(&b[..b.len() - 1], 0, settings(TextEncoding::Utf8)).unwrap_err(),
        PmxError::UnexpectedEnd
    );
}

#[test]
fn readers_chain_through_sections() {
    let st = settings(TextEncoding::Utf8);
    let mut data = 1i32.to_le_bytes().to_vec();
    data.extend(display_frame_bytes());
    data.extend_from_slice(&1i32.to_le_bytes());
    let mut rb = text_utf8("b");
    rb.extend(text_utf8("b"));
    rb.extend_from_slice(&5i16.to_le_bytes());
    rb.push(0);
    rb.extend_from_slice(&0u16.to_le_bytes());
    rb.push(0);
    rb.extend(floats(14, 0.0));
    rb.push(1);
    data.extend(rb);
    data.extend_from_slice(&1i32.to_le_bytes());
    data.extend(joint_bytes(0));
    let frames = DisplayFrameReader::open(st, data, 0).unwrap();
    assert_eq!(frames.count, 1);
    let mut bodies = RigidBodyReader::new(frames).unwrap();
    assert_eq!(bodies.count, 1);
    let body = bodies.next().unwrap().unwrap();
    assert_eq!(body.bone_index, 5);
    assert_eq!(body.mode, RigidBodyMode::Dynamic);
    assert!(bodies.next().unwrap().is_none());
    let mut joints = JointReader::new(bodies).unwrap();
    assert_eq!(joints.remaining, 1);
    assert_eq!(joints.next().unwrap().unwrap().type_, JointType::Spring6DOF);
    assert!(joints.next().unwrap().is_none());
}

#[test]
fn reader_poisoned_after_error() {
    let st = settings(TextEncoding::Utf8);
    let mut data = 2i32.to_le_bytes().to_vec();
    data.extend(joint_bytes(9));
    let mut joints = JointReader::open(st, data, 0).unwrap();
    assert_eq!(joints.next().unwrap_err(), PmxError::InvalidCode);
    assert!(joints.poison);
    assert_eq!(joints.remaining, 1);
    assert_eq!(JointReader::open(st, vec![1, 2], 0).err(), Some(PmxError::UnexpectedEnd));
}
