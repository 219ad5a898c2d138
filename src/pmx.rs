//! PMX records read after the morph section: display frames, rigid bodies
//! and joints. Float fields are carried as `f32` bit patterns.
use vstd::prelude::*;
use crate::bytes::{i32_le, read_i32_le, u16_le, u32_at, u32_le};
use crate::keyframe::Vec3Bits;
use crate::pmx_text::{
    IndexSize, PmxError, Settings, index_value, index_width, read_index, read_text, text_end, text_error,
    text_value,
};

verus! {

/// Kind of a joint's constraint.
#[derive(Clone, Copy, Debug, PartialEq, Eq)]
pub enum JointType {
    Spring6DOF,
    SixDof,
    P2p,
    ConeTwist,
    Slider,
    Hinge,
}

/// Collision shape of a rigid body.
#[derive(Clone, Copy, Debug, PartialEq, Eq)]
pub enum RigidBodyShape {
    Sphere,
    Box,
    Capsule,
}

/// How a rigid body relates to its bone.
#[derive(Clone, Copy, Debug, PartialEq, Eq)]
pub enum RigidBodyMode {
    /// Follows the bone (kinematic).
    Static,
    /// Simulated; drives the bone.
    Dynamic,
    /// Simulated rotation; the bone keeps its position.
    DynamicWithBonePosition,
}

pub open spec fn joint_type_of(c: u8) -> Option<JointType> {
    if c == 0 {
        Some(JointType::Spring6DOF)
    } else if c == 1 {
        Some(JointType::SixDof)
    } else if c == 2 {
        Some(JointType::P2p)
    } else if c == 3 {
        Some(JointType::ConeTwist)
    } else if c == 4 {
        Some(JointType::Slider)
    } else if c == 5 {
        Some(JointType::Hinge)
    } else {
        None
    }
}

pub open spec fn shape_of(c: u8) -> Option<RigidBodyShape> {
    if c == 0 {
        Some(RigidBodyShape::Sphere)
    } else if c == 1 {
        Some(RigidBodyShape::Box)
    } else if c == 2 {
        Some(RigidBodyShape::Capsule)
    } else {
        None
    }
}

pub open spec fn mode_of(c: u8) -> Option<RigidBodyMode> {
    if c == 0 {
        Some(RigidBodyMode::Static)
    } else if c == 1 {
        Some(RigidBodyMode::Dynamic)
    } else if c == 2 {
        Some(RigidBodyMode::DynamicWithBonePosition)
    } else {
        None
    }
}

impl JointType {
    /// The joint type stored as code `c`.
    pub fn from_code(c: u8) -> (r: Option<JointType>)
        ensures
            r == joint_type_of(c),
    {
        match c {
            0 => Some(JointType::Spring6DOF),
            1 => Some(JointType::SixDof),
            2 => Some(JointType::P2p),
            3 => Some(JointType::ConeTwist),
            4 => Some(JointType::Slider),
            5 => Some(JointType::Hinge),
            _ => None,
        }
    }
}

impl RigidBodyShape {
    /// The shape stored as code `c`.
    pub fn from_code(c: u8) -> (r: Option<RigidBodyShape>)
        ensures
            r == shape_of(c),
    {
        match c {
            0 => Some(RigidBodyShape::Sphere),
            1 => Some(RigidBodyShape::Box),
            2 => Some(RigidBodyShape::Capsule),
            _ => None,
        }
    }
}

impl RigidBodyMode {
    /// The mode stored as code `c`.
    pub fn from_code(c: u8) -> (r: Option<RigidBodyMode>)
        ensures
            r == mode_of(c),
    {
        match c {
            0 => Some(RigidBodyMode::Static),
            1 => Some(RigidBodyMode::Dynamic),
            2 => Some(RigidBodyMode::DynamicWithBonePosition),
            _ => None,
        }
    }
}

pub open spec fn bits_at(b: Seq<u8>, p: int) -> u32 {
    u32_le(b, p) as u32
}

pub open spec fn vec3_at(b: Seq<u8>, p: int) -> Vec3Bits {
    Vec3Bits { x: bits_at(b, p), y: bits_at(b, p + 4), z: bits_at(b, p + 8) }
}

fn read_vec3(b: &[u8], p: usize) -> (r: Vec3Bits)
    requires
        p + 12 <= b@.len(),
    ensures
        r == vec3_at(b@, p as int),
{
    let n = b.len();
    assert(p + 12 <= n);
    Vec3Bits { x: u32_at(b, p), y: u32_at(b, p + 4), z: u32_at(b, p + 8) }
}

fn width(s: IndexSize) -> (r: usize)
    ensures
        r as int == index_width(s),
{
    match s {
        IndexSize::I8 => 1,
        IndexSize::I16 => 2,
        IndexSize::I32 => 4,
    }
}

/// A rigid body record.
#[derive(Clone, Debug)]
pub struct RigidBody {
    pub local_name: String,
    pub universal_name: String,
    pub bone_index: i32,
    pub group: u8,
    pub un_collision_group_flag: u16,
    pub shape: RigidBodyShape,
    pub size: Vec3Bits,
    pub position: Vec3Bits,
    pub rotation: Vec3Bits,
    pub mass: u32,
    pub move_attenuation: u32,
    pub rotation_attenuation: u32,
    pub repulsion: u32,
    pub friction: u32,
    pub mode: RigidBodyMode,
}

/// Where the fixed-width part of the record at `p` starts: after the two
/// names and, for a rigid body, the bone index.
pub open spec fn names_end(b: Seq<u8>, p: int) -> int {
    text_end(b, text_end(b, p))
}

/// The first failure met reading a rigid body record at `p`, if any.
pub open spec fn rigid_body_error(b: Seq<u8>, p: int, st: Settings) -> Option<PmxError> {
    let enc = st.text_encoding;
    let e1 = text_end(b, p);
    let q = names_end(b, p) + index_width(st.bone_index_size);
    if text_error(b, p, enc) is Some {
        text_error(b, p, enc)
    } else if text_error(b, e1, enc) is Some {
        text_error(b, e1, enc)
    } else if q + 4 > b.len() {
        Some(PmxError::UnexpectedEnd)
    } else if shape_of(b[q + 3]) is None {
        Some(PmxError::InvalidCode)
    } else if q + 61 > b.len() {
        Some(PmxError::UnexpectedEnd)
    } else if mode_of(b[q + 60]) is None {
        Some(PmxError::InvalidCode)
    } else {
        None
    }
}

/// Position just after the rigid body record at `p`.
pub open spec fn rigid_body_end(b: Seq<u8>, p: int, st: Settings) -> int {
    names_end(b, p) + index_width(st.bone_index_size) + 61
}

/// `r` holds the fields of the rigid body record at `p`.
pub open spec fn rigid_body_at(b: Seq<u8>, p: int, st: Settings, r: RigidBody) -> bool {
    let enc = st.text_encoding;
    let e2 = names_end(b, p);
    let q = e2 + index_width(st.bone_index_size);
    &&& r.local_name@ == text_value(b, p, enc)
    &&& r.universal_name@ == text_value(b, text_end(b, p), enc)
    &&& r.bone_index as int == index_value(b, e2, st.bone_index_size)
    &&& r.group == b[q]
    &&& r.un_collision_group_flag as int == u16_le(b, q + 1)
    &&& shape_of(b[q + 3]) == Some(r.shape)
    &&& r.size == vec3_at(b, q + 4)
    &&& r.position == vec3_at(b, q + 16)
    &&& r.rotation == vec3_at(b, q + 28)
    &&& r.mass == bits_at(b, q + 40)
    &&& r.move_attenuation == bits_at(b, q + 44)
    &&& r.rotation_attenuation == bits_at(b, q + 48)
    &&& r.repulsion == bits_at(b, q + 52)
    &&& r.friction == bits_at(b, q + 56)
    &&& mode_of(b[q + 60]) == Some(r.mode)
}

/// Reads the rigid body record at `p`; returns it and the position after it.
pub fn read_rigid_body(b: &[u8], p: usize, st: Settings) -> (r: Result<(RigidBody, usize), PmxError>)
    ensures
        match r {
            Ok((rb, e)) => e <= b@.len() && rigid_body_error(b@, p as int, st) is None && rigid_body_at(b@, p as int, st, rb)
                && e as int == rigid_body_end(b@, p as int, st),
            Err(x) => rigid_body_error(b@, p as int, st) == Some(x),
        },
{
    let n = b.len();
    let enc = st.text_encoding;
    let (local_name, e1) = match read_text(b, p, enc) {
        Ok(v) => v,
        Err(x) => {
            return Err(x);
        },
    };
    let (universal_name, e2) = match read_text(b, e1, enc) {
        Ok(v) => v,
        Err(x) => {
            return Err(x);
        },
    };
    let bone_index = match read_index(b, e2, st.bone_index_size) {
        Some(v) => v,
        None => {
            return Err(PmxError::UnexpectedEnd);
        },
    };
    let q = e2 + width(st.bone_index_size);
    if n - q < 4 {
        return Err(PmxError::UnexpectedEnd);
    }
    let shape = match RigidBodyShape::from_code(b[q + 3]) {
        Some(s) => s,
        None => {
            return Err(PmxError::InvalidCode);
        },
    };
    if n - q < 61 {
        return Err(PmxError::UnexpectedEnd);
    }
    let mode = match RigidBodyMode::from_code(b[q + 60]) {
        Some(m) => m,
        None => {
            return Err(PmxError::InvalidCode);
        },
    };
    let rb = RigidBody {
        local_name,
        universal_name,
        bone_index,
        group: b[q],
        un_collision_group_flag: b[q + 1] as u16 + b[q + 2] as u16 * 0x100,
        shape,
        size: read_vec3(b, q + 4),
        position: read_vec3(b, q + 16),
        rotation: read_vec3(b, q + 28),
        mass: u32_at(b, q + 40),
        move_attenuation: u32_at(b, q + 44),
        rotation_attenuation: u32_at(b, q + 48),
        repulsion: u32_at(b, q + 52),
        friction: u32_at(b, q + 56),
        mode,
    };
    Ok((rb, q + 61))
}

/// A joint record.
#[derive(Clone, Debug)]
pub struct Joint {
    pub local_name: String,
    pub universal_name: String,
    pub type_: JointType,
    pub rigid_body_a_index: i32,
    pub rigid_body_b_index: i32,
    pub position: Vec3Bits,
    pub rotation: Vec3Bits,
    pub position_min: Vec3Bits,
    pub position_max: Vec3Bits,
    pub rotation_min: Vec3Bits,
    pub rotation_max: Vec3Bits,
    pub position_spring: Vec3Bits,
    pub rotation_spring: Vec3Bits,
}

/// The first failure met reading a joint record at `p`, if any.
pub open spec fn joint_error(b: Seq<u8>, p: int, st: Settings) -> Option<PmxError> {
    let enc = st.text_encoding;
    let e1 = text_end(b, p);
    let e2 = names_end(b, p);
    if text_error(b, p, enc) is Some {
        text_error(b, p, enc)
    } else if text_error(b, e1, enc) is Some {
        text_error(b, e1, enc)
    } else if e2 + 1 > b.len() {
        Some(PmxError::UnexpectedEnd)
    } else if joint_type_of(b[e2]) is None {
        Some(PmxError::InvalidCode)
    } else if joint_end(b, p, st) > b.len() {
        Some(PmxError::UnexpectedEnd)
    } else {
        None
    }
}

/// Position just after the joint record at `p`.
pub open spec fn joint_end(b: Seq<u8>, p: int, st: Settings) -> int {
    names_end(b, p) + 1 + 2 * index_width(st.rigidbody_index_size) + 96
}

/// `r` holds the fields of the joint record at `p`.
pub open spec fn joint_at(b: Seq<u8>, p: int, st: Settings, r: Joint) -> bool {
    let enc = st.text_encoding;
    let e2 = names_end(b, p);
    let w = index_width(st.rigidbody_index_size);
    let f = e2 + 1 + 2 * w;
    &&& r.local_name@ == text_value(b, p, enc)
    &&& r.universal_name@ == text_value(b, text_end(b, p), enc)
    &&& joint_type_of(b[e2]) == Some(r.type_)
    &&& r.rigid_body_a_index as int == index_value(b, e2 + 1, st.rigidbody_index_size)
    &&& r.rigid_body_b_index as int == index_value(b, e2 + 1 + w, st.rigidbody_index_size)
    &&& r.position == vec3_at(b, f)
    &&& r.rotation == vec3_at(b, f + 12)
    &&& r.position_min == vec3_at(b, f + 24)
    &&& r.position_max == vec3_at(b, f + 36)
    &&& r.rotation_min == vec3_at(b, f + 48)
    &&& r.rotation_max == vec3_at(b, f + 60)
    &&& r.position_spring == vec3_at(b, f + 72)
    &&& r.rotation_spring == vec3_at(b, f + 84)
}

/// Reads the joint record at `p`; returns it and the position after it.
pub fn read_joint(b: &[u8], p: usize, st: Settings) -> (r: Result<(Joint, usize), PmxError>)
    ensures
        match r {
            Ok((j, e)) => e <= b@.len() && joint_error(b@, p as int, st) is None && joint_at(b@, p as int, st, j)
                && e as int == joint_end(b@, p as int, st),
            Err(x) => joint_error(b@, p as int, st) == Some(x),
        },
{
    let n = b.len();
    let enc = st.text_encoding;
    let (local_name, e1) = match read_text(b, p, enc) {
        Ok(v) => v,
        Err(x) => {
            return Err(x);
        },
    };
    let (universal_name, e2) = match read_text(b, e1, enc) {
        Ok(v) => v,
        Err(x) => {
            return Err(x);
        },
    };
    if e2 >= n {
        return Err(PmxError::UnexpectedEnd);
    }
    let type_ = match JointType::from_code(b[e2]) {
        Some(t) => t,
        None => {
            return Err(PmxError::InvalidCode);
        },
    };
    let w = width(st.rigidbody_index_size);
    if n - (e2 + 1) < 2 * w + 96 {
        return Err(PmxError::UnexpectedEnd);
    }
    let a = match read_index(b, e2 + 1, st.rigidbody_index_size) {
        Some(v) => v,
        None => {
            return Err(PmxError::UnexpectedEnd);
        },
    };
    let c = match read_index(b, e2 + 1 + w, st.rigidbody_index_size) {
        Some(v) => v,
        None => {
            return Err(PmxError::UnexpectedEnd);
        },
    };
    let f = e2 + 1 + 2 * w;
    let j = Joint {
        local_name,
        universal_name,
        type_,
        rigid_body_a_index: a,
        rigid_body_b_index: c,
        position: read_vec3(b, f),
        rotation: read_vec3(b, f + 12),
        position_min: read_vec3(b, f + 24),
        position_max: read_vec3(b, f + 36),
        rotation_min: read_vec3(b, f + 48),
        rotation_max: read_vec3(b, f + 60),
        position_spring: read_vec3(b, f + 72),
        rotation_spring: read_vec3(b, f + 84),
    };
    Ok((j, f + 96))
}

/// One entry of a display frame: a bone (`target_type` 0) or a morph.
#[derive(Clone, Copy, Debug, PartialEq, Eq)]
pub struct DisplayFrameElement {
    pub target_type: u8,
    pub target_index: i32,
}

/// A display frame record.
#[derive(Clone, Debug)]
pub struct DisplayFrame {
    pub local_name: String,
    pub universal_name: String,
    pub special_flag: u8,
    pub elements: Vec<DisplayFrameElement>,
}

/// Index width of an element whose type byte is `t`.
pub open spec fn element_width(t: u8, st: Settings) -> int {
    if t == 0 {
        index_width(st.bone_index_size)
    } else {
        index_width(st.morph_index_size)
    }
}

/// Position after `k` elements starting at `p`; `None` when the input ends
/// inside one of them.
pub open spec fn elements_end(b: Seq<u8>, p: int, k: nat, st: Settings) -> Option<int>
    decreases k,
{
    if k == 0 {
        Some(p)
    } else {
        match elements_end(b, p, (k - 1) as nat, st) {
            None => None,
            Some(q) => if q + 1 > b.len() || q + 1 + element_width(b[q], st) > b.len() {
                None
            } else {
                Some(q + 1 + element_width(b[q], st))
            },
        }
    }
}

/// The element stored at `q`.
pub open spec fn element_at(b: Seq<u8>, q: int, st: Settings) -> DisplayFrameElement {
    let t = b[q];
    let s = if t == 0 { st.bone_index_size } else { st.morph_index_size };
    DisplayFrameElement { target_type: t, target_index: index_value(b, q + 1, s) as i32 }
}

/// Number of elements the record at `p` declares (none when negative).
pub open spec fn element_count(b: Seq<u8>, p: int) -> nat {
    let n = i32_le(b, names_end(b, p) + 1);
    if n > 0 { n as nat } else { 0 }
}

/// The first failure met reading a display frame record at `p`, if any.
pub open spec fn display_frame_error(b: Seq<u8>, p: int, st: Settings) -> Option<PmxError> {
    let enc = st.text_encoding;
    let e1 = text_end(b, p);
    let e2 = names_end(b, p);
    if text_error(b, p, enc) is Some {
        text_error(b, p, enc)
    } else if text_error(b, e1, enc) is Some {
        text_error(b, e1, enc)
    } else if e2 + 5 > b.len() {
        Some(PmxError::UnexpectedEnd)
    } else if elements_end(b, e2 + 5, element_count(b, p), st) is None {
        Some(PmxError::UnexpectedEnd)
    } else {
        None
    }
}

/// Position just after the display frame record at `p`.
pub open spec fn display_frame_end(b: Seq<u8>, p: int, st: Settings) -> int {
    elements_end(b, names_end(b, p) + 5, element_count(b, p), st).unwrap()
}

/// `r` holds the fields of the display frame record at `p`.
pub open spec fn display_frame_at(b: Seq<u8>, p: int, st: Settings, r: DisplayFrame) -> bool {
    let enc = st.text_encoding;
    let e2 = names_end(b, p);
    &&& r.local_name@ == text_value(b, p, enc)
    &&& r.universal_name@ == text_value(b, text_end(b, p), enc)
    &&& r.special_flag == b[e2]
    &&& r.elements@.len() == element_count(b, p)
    &&& forall|i: int| 0 <= i < r.elements@.len() ==> r.elements@[i] == element_at(
        b,
        elements_end(b, e2 + 5, i as nat, st).unwrap(),
        st,
    )
}

/// Reads the display frame record at `p`; returns it and the position after
/// it.
pub fn read_display_frame(b: &[u8], p: usize, st: Settings) -> (r: Result<(DisplayFrame, usize), PmxError>)
    ensures
        match r {
            Ok((d, e)) => e <= b@.len() && display_frame_error(b@, p as int, st) is None && display_frame_at(b@, p as int, st, d)
                && e as int == display_frame_end(b@, p as int, st),
            Err(x) => display_frame_error(b@, p as int, st) == Some(x),
        },
{
    let n = b.len();
    let enc = st.text_encoding;
    let (local_name, e1) = match read_text(b, p, enc) {
        Ok(v) => v,
        Err(x) => {
            return Err(x);
        },
    };
    let (universal_name, e2) = match read_text(b, e1, enc) {
        Ok(v) => v,
        Err(x) => {
            return Err(x);
        },
    };
    if n - e2 < 5 {
        return Err(PmxError::UnexpectedEnd);
    }
    let special_flag = b[e2];
    let count = u32_at(b, e2 + 1);
    let count: u32 = if count >= 0x8000_0000 { 0 } else { count };
    proof {
        assert(count as nat == element_count(b@, p as int));
    }
    let start = e2 + 5;
    let mut elements: Vec<DisplayFrameElement> = Vec::new();
    let mut q = start;
    let mut k: u32 = 0;
    while k < count
        invariant
            n == b@.len(),
            text_error(b@, p as int, st.text_encoding) is None,
            text_error(b@, text_end(b@, p as int), st.text_encoding) is None,
            start == names_end(b@, p as int) + 5,
            start <= b@.len(),
            k <= count,
            count as nat == element_count(b@, p as int),
            q <= b@.len(),
            elements_end(b@, start as int, k as nat, st) == Some(q as int),
            elements@.len() == k,
            forall|i: int| 0 <= i < k ==> elements@[i] == element_at(
                b@,
                elements_end(b@, start as int, i as nat, st).unwrap(),
                st,
            ),
        decreases count - k,
    {
        if q >= n {
            proof {
                lemma_elements_end_none(b@, start as int, (k + 1) as nat, count as nat, st);
            }
            return Err(PmxError::UnexpectedEnd);
        }
        let t = b[q];
        let size = if t == 0 { st.bone_index_size } else { st.morph_index_size };
        let target_index = match read_index(b, q + 1, size) {
            Some(v) => v,
            None => {
                proof {
                    lemma_elements_end_none(b@, start as int, (k + 1) as nat, count as nat, st);
                }
                return Err(PmxError::UnexpectedEnd);
            },
        };
        elements.push(DisplayFrameElement { target_type: t, target_index });
        q = q + 1 + width(size);
        k = k + 1;
    }
    Ok((DisplayFrame { local_name, universal_name, special_flag, elements }, q))
}

/// Once the input ends inside an element, it ends inside every longer run.
proof fn lemma_elements_end_none(b: Seq<u8>, p: int, k: nat, n: nat, st: Settings)
    requires
        elements_end(b, p, k, st) is None,
        k <= n,
    ensures
        elements_end(b, p, n, st) is None,
    decreases n - k,
{
    if k < n {
        lemma_elements_end_none(b, p, k + 1, n, st);
    }
}

/// `n` when positive, else 0.
pub open spec fn nonneg(n: i32) -> nat {
    if n > 0 { n as nat } else { 0 }
}

/// Reads display frame records one by one from a PMX byte buffer.
pub struct DisplayFrameReader {
    pub settings: Settings,
    pub count: i32,
    pub remaining: i32,
    pub data: Vec<u8>,
    pub pos: usize,
    pub poison: bool,
}

impl DisplayFrameReader {
    pub open spec fn wf(&self) -> bool {
        self.pos <= self.data@.len()
    }

    /// Reads the next record; `Ok(None)` once all are read. After an error
    /// the reader is poisoned and must not be used again.
    pub fn next(&mut self) -> (r: Result<Option<DisplayFrame>, PmxError>)
        requires
            !old(self).poison,
            old(self).wf(),
        ensures
            final(self).wf(),
            final(self).settings == old(self).settings,
            final(self).count == old(self).count,
            final(self).data@ == old(self).data@,
            old(self).remaining <= 0 ==> (r matches Ok(None)) && final(self).pos == old(self).pos
                && final(self).remaining == old(self).remaining && !final(self).poison,
            old(self).remaining > 0 ==> final(self).remaining == old(self).remaining - 1 && match r {
                Ok(Some(x)) => display_frame_error(old(self).data@, old(self).pos as int, old(self).settings) is None
                    && display_frame_at(old(self).data@, old(self).pos as int, old(self).settings, x)
                    && final(self).pos as int == display_frame_end(old(self).data@, old(self).pos as int, old(self).settings)
                    && !final(self).poison,
                Ok(None) => false,
                Err(e) => display_frame_error(old(self).data@, old(self).pos as int, old(self).settings) == Some(e)
                    && final(self).poison && final(self).pos == old(self).pos,
            },
    {
        if self.remaining <= 0 {
            return Ok(None);
        }
        self.remaining = self.remaining - 1;
        match read_display_frame(self.data.as_slice(), self.pos, self.settings) {
            Ok((x, e)) => {
                self.pos = e;
                Ok(Some(x))
            },
            Err(e) => {
                self.poison = true;
                Err(e)
            },
        }
    }
}

/// Position after `k` display frame records from `p`, or the first error met.
pub open spec fn display_frames_drained(b: Seq<u8>, p: int, k: nat, st: Settings) -> Result<int, PmxError>
    decreases k,
{
    if k == 0 {
        Ok(p)
    } else {
        match display_frames_drained(b, p, (k - 1) as nat, st) {
            Err(e) => Err(e),
            Ok(q) => match display_frame_error(b, q, st) {
                Some(e) => Err(e),
                None => Ok(display_frame_end(b, q, st)),
            },
        }
    }
}

proof fn lemma_display_frames_drained_err(b: Seq<u8>, p: int, k: nat, n: nat, st: Settings)
    requires
        display_frames_drained(b, p, k, st) is Err,
        k <= n,
    ensures
        display_frames_drained(b, p, n, st) == display_frames_drained(b, p, k, st),
    decreases n - k,
{
    if k < n {
        lemma_display_frames_drained_err(b, p, k + 1, n, st);
    }
}

/// Reads the rest of `prev`'s records; returns the buffer, the position
/// after them and the settings.
fn drain_display_frames(previous: DisplayFrameReader) -> (r: Result<(Vec<u8>, usize), PmxError>)
    requires
        !previous.poison,
        previous.wf(),
    ensures
        match r {
            Ok((d, q)) => d@ == previous.data@ && display_frames_drained(previous.data@, previous.pos as int, nonneg(previous.remaining), previous.settings)
                == Ok::<int, PmxError>(q as int) && q <= d@.len(),
            Err(e) => display_frames_drained(previous.data@, previous.pos as int, nonneg(previous.remaining), previous.settings)
                == Err::<int, PmxError>(e),
        },
{
    let mut prev = previous;
    let ghost b = prev.data@;
    let ghost p0 = prev.pos as int;
    let ghost n = nonneg(prev.remaining);
    let ghost st = prev.settings;
    while prev.remaining > 0
        invariant
            b == previous.data@,
            p0 == previous.pos as int,
            n == nonneg(previous.remaining),
            st == previous.settings,
            !prev.poison,
            prev.data@ == b,
            prev.settings == st,
            0 <= nonneg(prev.remaining) <= n,
            display_frames_drained(b, p0, (n - nonneg(prev.remaining)) as nat, st) == Ok::<int, PmxError>(prev.pos as int),
            prev.pos <= b.len(),
        decreases prev.remaining,
    {
        let ghost done = (n - nonneg(prev.remaining)) as nat;
        match prev.next() {
            Ok(_) => {
                assert(done + 1 == n - nonneg(prev.remaining));
            },
            Err(e) => {
                proof {
                    assert(display_frames_drained(b, p0, done + 1, st) == Err::<int, PmxError>(e));
                    lemma_display_frames_drained_err(b, p0, done + 1, n, st);
                }
                return Err(e);
            },
        }
    }
    Ok((prev.data, prev.pos))
}

/// Reads rigid body records one by one from a PMX byte buffer.
pub struct RigidBodyReader {
    pub settings: Settings,
    pub count: i32,
    pub remaining: i32,
    pub data: Vec<u8>,
    pub pos: usize,
    pub poison: bool,
}

impl RigidBodyReader {
    pub open spec fn wf(&self) -> bool {
        self.pos <= self.data@.len()
    }

    /// Reads the next record; `Ok(None)` once all are read. After an error
    /// the reader is poisoned and must not be used again.
    pub fn next(&mut self) -> (r: Result<Option<RigidBody>, PmxError>)
        requires
            !old(self).poison,
            old(self).wf(),
        ensures
            final(self).wf(),
            final(self).settings == old(self).settings,
            final(self).count == old(self).count,
            final(self).data@ == old(self).data@,
            old(self).remaining <= 0 ==> (r matches Ok(None)) && final(self).pos == old(self).pos
                && final(self).remaining == old(self).remaining && !final(self).poison,
            old(self).remaining > 0 ==> final(self).remaining == old(self).remaining - 1 && match r {
                Ok(Some(x)) => rigid_body_error(old(self).data@, old(self).pos as int, old(self).settings) is None
                    && rigid_body_at(old(self).data@, old(self).pos as int, old(self).settings, x)
                    && final(self).pos as int == rigid_body_end(old(self).data@, old(self).pos as int, old(self).settings)
                    && !final(self).poison,
                Ok(None) => false,
                Err(e) => rigid_body_error(old(self).data@, old(self).pos as int, old(self).settings) == Some(e)
                    && final(self).poison && final(self).pos == old(self).pos,
            },
    {
        if self.remaining <= 0 {
            return Ok(None);
        }
        self.remaining = self.remaining - 1;
        match read_rigid_body(self.data.as_slice(), self.pos, self.settings) {
            Ok((x, e)) => {
                self.pos = e;
                Ok(Some(x))
            },
            Err(e) => {
                self.poison = true;
                Err(e)
            },
        }
    }
}

/// Position after `k` rigid body records from `p`, or the first error met.
pub open spec fn rigid_bodys_drained(b: Seq<u8>, p: int, k: nat, st: Settings) -> Result<int, PmxError>
    decreases k,
{
    if k == 0 {
        Ok(p)
    } else {
        match rigid_bodys_drained(b, p, (k - 1) as nat, st) {
            Err(e) => Err(e),
            Ok(q) => match rigid_body_error(b, q, st) {
                Some(e) => Err(e),
                None => Ok(rigid_body_end(b, q, st)),
            },
        }
    }
}

proof fn lemma_rigid_bodys_drained_err(b: Seq<u8>, p: int, k: nat, n: nat, st: Settings)
    requires
        rigid_bodys_drained(b, p, k, st) is Err,
        k <= n,
    ensures
        rigid_bodys_drained(b, p, n, st) == rigid_bodys_drained(b, p, k, st),
    decreases n - k,
{
    if k < n {
        lemma_rigid_bodys_drained_err(b, p, k + 1, n, st);
    }
}

/// Reads the rest of `prev`'s records; returns the buffer, the position
/// after them and the settings.
fn drain_rigid_bodys(previous: RigidBodyReader) -> (r: Result<(Vec<u8>, usize), PmxError>)
    requires
        !previous.poison,
        previous.wf(),
    ensures
        match r {
            Ok((d, q)) => d@ == previous.data@ && rigid_bodys_drained(previous.data@, previous.pos as int, nonneg(previous.remaining), previous.settings)
                == Ok::<int, PmxError>(q as int) && q <= d@.len(),
            Err(e) => rigid_bodys_drained(previous.data@, previous.pos as int, nonneg(previous.remaining), previous.settings)
                == Err::<int, PmxError>(e),
        },
{
    let mut prev = previous;
    let ghost b = prev.data@;
    let ghost p0 = prev.pos as int;
    let ghost n = nonneg(prev.remaining);
    let ghost st = prev.settings;
    while prev.remaining > 0
        invariant
            b == previous.data@,
            p0 == previous.pos as int,
            n == nonneg(previous.remaining),
            st == previous.settings,
            !prev.poison,
            prev.data@ == b,
            prev.settings == st,
            0 <= nonneg(prev.remaining) <= n,
            rigid_bodys_drained(b, p0, (n - nonneg(prev.remaining)) as nat, st) == Ok::<int, PmxError>(prev.pos as int),
            prev.pos <= b.len(),
        decreases prev.remaining,
    {
        let ghost done = (n - nonneg(prev.remaining)) as nat;
        match prev.next() {
            Ok(_) => {
                assert(done + 1 == n - nonneg(prev.remaining));
            },
            Err(e) => {
                proof {
                    assert(rigid_bodys_drained(b, p0, done + 1, st) == Err::<int, PmxError>(e));
                    lemma_rigid_bodys_drained_err(b, p0, done + 1, n, st);
                }
                return Err(e);
            },
        }
    }
    Ok((prev.data, prev.pos))
}

/// Reads joint records one by one from a PMX byte buffer.
pub struct JointReader {
    pub settings: Settings,
    pub count: i32,
    pub remaining: i32,
    pub data: Vec<u8>,
    pub pos: usize,
    pub poison: bool,
}

impl JointReader {
    pub open spec fn wf(&self) -> bool {
        self.pos <= self.data@.len()
    }

    /// Reads the next record; `Ok(None)` once all are read. After an error
    /// the reader is poisoned and must not be used again.
    pub fn next(&mut self) -> (r: Result<Option<Joint>, PmxError>)
        requires
            !old(self).poison,
            old(self).wf(),
        ensures
            final(self).wf(),
            final(self).settings == old(self).settings,
            final(self).count == old(self).count,
            final(self).data@ == old(self).data@,
            old(self).remaining <= 0 ==> (r matches Ok(None)) && final(self).pos == old(self).pos
                && final(self).remaining == old(self).remaining && !final(self).poison,
            old(self).remaining > 0 ==> final(self).remaining == old(self).remaining - 1 && match r {
                Ok(Some(x)) => joint_error(old(self).data@, old(self).pos as int, old(self).settings) is None
                    && joint_at(old(self).data@, old(self).pos as int, old(self).settings, x)
                    && final(self).pos as int == joint_end(old(self).data@, old(self).pos as int, old(self).settings)
                    && !final(self).poison,
                Ok(None) => false,
                Err(e) => joint_error(old(self).data@, old(self).pos as int, old(self).settings) == Some(e)
                    && final(self).poison && final(self).pos == old(self).pos,
            },
    {
        if self.remaining <= 0 {
            return Ok(None);
        }
        self.remaining = self.remaining - 1;
        match read_joint(self.data.as_slice(), self.pos, self.settings) {
            Ok((x, e)) => {
                self.pos = e;
                Ok(Some(x))
            },
            Err(e) => {
                self.poison = true;
                Err(e)
            },
        }
    }
}

/// A reader over `data` whose count was read at `q`: `count` is the
/// `i32` there and reading starts right after it.
pub open spec fn section_opened(
    b: Seq<u8>,
    q: int,
    st: Settings,
    data: Seq<u8>,
    settings: Settings,
    count: i32,
    remaining: i32,
    pos: usize,
    poison: bool,
) -> bool {
    &&& q + 4 <= b.len()
    &&& data == b
    &&& settings == st
    &&& count as int == i32_le(b, q)
    &&& remaining == count
    &&& pos as int == q + 4
    &&& !poison
}

impl DisplayFrameReader {
    /// A reader whose record count is the `i32` at `pos` of `data`.
    pub fn open(settings: Settings, data: Vec<u8>, pos: usize) -> (r: Result<Self, PmxError>)
        ensures
            match r {
                Ok(x) => section_opened(data@, pos as int, settings, x.data@, x.settings, x.count, x.remaining, x.pos, x.poison)
                    && x.wf(),
                Err(e) => pos + 4 > data@.len() && e == PmxError::UnexpectedEnd,
            },
    {
        let n = data.len();
        match read_i32_le(data.as_slice(), pos) {
            Some(count) => Ok(DisplayFrameReader { settings, count, remaining: count, data, pos: pos + 4, poison: false }),
            None => Err(PmxError::UnexpectedEnd),
        }
    }
}

impl RigidBodyReader {
    /// A reader whose record count is the `i32` at `pos` of `data`.
    pub fn open(settings: Settings, data: Vec<u8>, pos: usize) -> (r: Result<Self, PmxError>)
        ensures
            match r {
                Ok(x) => section_opened(data@, pos as int, settings, x.data@, x.settings, x.count, x.remaining, x.pos, x.poison)
                    && x.wf(),
                Err(e) => pos + 4 > data@.len() && e == PmxError::UnexpectedEnd,
            },
    {
        let n = data.len();
        match read_i32_le(data.as_slice(), pos) {
            Some(count) => Ok(RigidBodyReader { settings, count, remaining: count, data, pos: pos + 4, poison: false }),
            None => Err(PmxError::UnexpectedEnd),
        }
    }
}

impl JointReader {
    /// A reader whose record count is the `i32` at `pos` of `data`.
    pub fn open(settings: Settings, data: Vec<u8>, pos: usize) -> (r: Result<Self, PmxError>)
        ensures
            match r {
                Ok(x) => section_opened(data@, pos as int, settings, x.data@, x.settings, x.count, x.remaining, x.pos, x.poison)
                    && x.wf(),
                Err(e) => pos + 4 > data@.len() && e == PmxError::UnexpectedEnd,
            },
    {
        let n = data.len();
        match read_i32_le(data.as_slice(), pos) {
            Some(count) => Ok(JointReader { settings, count, remaining: count, data, pos: pos + 4, poison: false }),
            None => Err(PmxError::UnexpectedEnd),
        }
    }
}

impl RigidBodyReader {
    /// Finishes `previous` (reading its remaining records) and reads the
    /// rigid body count that follows.
    pub fn new(previous: DisplayFrameReader) -> (r: Result<Self, PmxError>)
        requires
            !previous.poison,
            previous.wf(),
        ensures
            match display_frames_drained(previous.data@, previous.pos as int, nonneg(previous.remaining), previous.settings) {
                Ok(q) => match r {
                    Ok(x) => section_opened(previous.data@, q, previous.settings, x.data@, x.settings, x.count, x.remaining, x.pos, x.poison),
                    Err(e) => q + 4 > previous.data@.len() && e == PmxError::UnexpectedEnd,
                },
                Err(e0) => r == Err::<Self, PmxError>(e0),
            },
    {
        let settings = previous.settings;
        match drain_display_frames(previous) {
            Ok((data, q)) => RigidBodyReader::open(settings, data, q),
            Err(e) => Err(e),
        }
    }
}

impl JointReader {
    /// Finishes `previous` (reading its remaining records) and reads the
    /// joint count that follows.
    pub fn new(previous: RigidBodyReader) -> (r: Result<Self, PmxError>)
        requires
            !previous.poison,
            previous.wf(),
        ensures
            match rigid_bodys_drained(previous.data@, previous.pos as int, nonneg(previous.remaining), previous.settings) {
                Ok(q) => match r {
                    Ok(x) => section_opened(previous.data@, q, previous.settings, x.data@, x.settings, x.count, x.remaining, x.pos, x.poison),
                    Err(e) => q + 4 > previous.data@.len() && e == PmxError::UnexpectedEnd,
                },
                Err(e0) => r == Err::<Self, PmxError>(e0),
            },
    {
        let settings = previous.settings;
        match drain_rigid_bodys(previous) {
            Ok((data, q)) => JointReader::open(settings, data, q),
            Err(e) => Err(e),
        }
    }
}

} // verus!
