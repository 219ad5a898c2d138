//! The VMD motion format: header, model name, bone keyframes and morph
//! keyframes, little-endian. Later sections (camera, light, ...) are
//! ignored.
use vstd::prelude::*;
use crate::bytes::{u32_at, u32_le, find_nul, until_nul};
use crate::keyframe::{
    BoneKeyframe, InterpolationParams, MorphKeyframe, QuatBits, Vec3Bits, negate_bits, negated_bits,
};
use crate::motion::{Motion, bone_named_put, bone_view, morph_named_put, morph_view};
use crate::motion_track::{BoneSample, MorphSample, bone_sampled, morph_sampled};

verus! {

/// What the Shift-JIS decoder makes of a byte string.
pub uninterp spec fn shift_jis_text(b: Seq<u8>) -> Seq<char>;

/// Relies on `encoding_rs::SHIFT_JIS.decode`: malformed sequences become
/// U+FFFD, a leading byte-order mark selects its own encoding, and the
/// result depends on the bytes alone.
#[verifier::external_body]
fn decode_shift_jis(b: &[u8]) -> (r: String)
    requires
        b@.len() <= 0x7fff_ffff,
    ensures
        r@ == shift_jis_text(b@),
{
    let (text, _, _) = encoding_rs::SHIFT_JIS.decode(b);
    text.into_owned()
}

/// Bytes of the header.
pub const HEADER_LEN: usize = 30;
/// Bytes of the model name field.
pub const MODEL_NAME_LEN: usize = 20;
/// Bytes of one bone keyframe record.
pub const BONE_RECORD_LEN: usize = 111;
/// Bytes of one morph keyframe record.
pub const MORPH_RECORD_LEN: usize = 23;
/// Bytes of the name field of a keyframe record.
pub const NAME_LEN: usize = 15;

/// `"Vocaloid Motion Data file"`, the first version's magic.
pub open spec fn magic_v1() -> Seq<u8> {
    seq![86u8, 111, 99, 97, 108, 111, 105, 100, 32, 77, 111, 116, 105, 111, 110, 32, 68, 97, 116, 97, 32,
        102, 105, 108, 101]
}

/// `"Vocaloid Motion Data 0002"`, the second version's magic.
pub open spec fn magic_v2() -> Seq<u8> {
    seq![86u8, 111, 99, 97, 108, 111, 105, 100, 32, 77, 111, 116, 105, 111, 110, 32, 68, 97, 116, 97, 32,
        48, 48, 48, 50]
}

fn magic(v2: bool) -> (r: Vec<u8>)
    ensures
        r@ == if v2 { magic_v2() } else { magic_v1() },
{
    if v2 {
        vec![86u8, 111, 99, 97, 108, 111, 105, 100, 32, 77, 111, 116, 105, 111, 110, 32, 68, 97, 116, 97, 32,
            48, 48, 48, 50]
    } else {
        vec![86u8, 111, 99, 97, 108, 111, 105, 100, 32, 77, 111, 116, 105, 111, 110, 32, 68, 97, 116, 97, 32,
            102, 105, 108, 101]
    }
}

/// The 30-byte header is there and its first 25 bytes are one of the two
/// magics.
pub open spec fn header_ok(b: Seq<u8>) -> bool {
    b.len() >= 30 && (b.subrange(0, 25) == magic_v1() || b.subrange(0, 25) == magic_v2())
}

pub open spec fn bone_count(b: Seq<u8>) -> int {
    u32_le(b, 50)
}

/// Where the morph section (its count) starts.
pub open spec fn morph_section(b: Seq<u8>) -> int {
    54 + 111 * bone_count(b)
}

pub open spec fn morph_count(b: Seq<u8>) -> int {
    u32_le(b, morph_section(b))
}

/// The input holds a valid header and complete bone and morph sections.
pub open spec fn vmd_accepts(b: Seq<u8>) -> bool {
    &&& header_ok(b)
    &&& b.len() >= 54
    &&& b.len() >= morph_section(b) + 4
    &&& b.len() >= morph_section(b) + 4 + 23 * morph_count(b)
}

/// The model name: the 20 bytes after the header, up to the first zero.
pub open spec fn model_name_text(b: Seq<u8>) -> Seq<char> {
    shift_jis_text(until_nul(b, 30, 50))
}

/// The name of the record at `p`: 15 bytes, up to the first zero.
pub open spec fn record_name(b: Seq<u8>, p: int) -> Seq<char> {
    shift_jis_text(until_nul(b, p, p + 15))
}

pub open spec fn bits_at(b: Seq<u8>, p: int) -> u32 {
    u32_le(b, p) as u32
}

/// Bézier bytes of one channel: column `c` of the interpolation table at `t`.
pub open spec fn interp_at(b: Seq<u8>, t: int, c: int) -> InterpolationParams {
    InterpolationParams { x1: b[t + c], y1: b[t + 4 + c], x2: b[t + 8 + c], y2: b[t + 12 + c] }
}

/// The bone keyframe of the record at `p`, in engine coordinates (Z of the
/// translation, Z and W of the rotation negated).
pub open spec fn bone_record(b: Seq<u8>, p: int) -> BoneKeyframe {
    BoneKeyframe {
        frame_index: bits_at(b, p + 15),
        translation: Vec3Bits { x: bits_at(b, p + 19), y: bits_at(b, p + 23), z: negated_bits(bits_at(b, p + 27)) },
        orientation: QuatBits {
            x: bits_at(b, p + 31),
            y: bits_at(b, p + 35),
            z: negated_bits(bits_at(b, p + 39)),
            w: negated_bits(bits_at(b, p + 43)),
        },
        interpolation_x: interp_at(b, p + 47, 0),
        interpolation_y: interp_at(b, p + 47, 1),
        interpolation_z: interp_at(b, p + 47, 2),
        interpolation_r: interp_at(b, p + 47, 3),
        is_physics_simulation_enabled: true,
    }
}

/// The morph keyframe of the record at `p`.
pub open spec fn morph_record(b: Seq<u8>, p: int) -> MorphKeyframe {
    MorphKeyframe { frame_index: bits_at(b, p + 15), weight: bits_at(b, p + 19) }
}

/// Bone tracks after the first `n` bone records, put in file order.
pub open spec fn vmd_bones(b: Seq<u8>, n: nat) -> Seq<(Seq<char>, Seq<BoneKeyframe>)>
    decreases n,
{
    if n == 0 {
        seq![]
    } else {
        let p = 54 + 111 * (n - 1);
        bone_named_put(vmd_bones(b, (n - 1) as nat), record_name(b, p), bone_record(b, p))
    }
}

/// Morph tracks after the first `n` morph records, put in file order.
pub open spec fn vmd_morphs(b: Seq<u8>, n: nat) -> Seq<(Seq<char>, Seq<MorphKeyframe>)>
    decreases n,
{
    if n == 0 {
        seq![]
    } else {
        let p = morph_section(b) + 4 + 23 * (n - 1);
        morph_named_put(vmd_morphs(b, (n - 1) as nat), record_name(b, p), morph_record(b, p))
    }
}

/// Why a VMD input was refused.
#[derive(Clone, Copy, Debug, PartialEq, Eq)]
pub enum VmdError {
    /// The input ends inside the header or a section.
    Truncated,
    /// The header names neither VMD version.
    InvalidHeader,
}

/// A decoded VMD file.
#[derive(Clone, Debug)]
pub struct VmdFile {
    pub model_name: String,
    pub motion: Motion,
}

fn record_name_exec(b: &[u8], p: usize, len: usize) -> (r: String)
    requires
        p + len <= b@.len(),
        len <= 20,
    ensures
        r@ == shift_jis_text(until_nul(b@, p as int, p + len)),
{
    let n = b.len();
    let e = find_nul(b, p, p + len);
    decode_shift_jis(&b[p..e])
}

fn read_bone_record(b: &[u8], p: usize) -> (r: (String, BoneKeyframe))
    requires
        p + 111 <= b@.len(),
    ensures
        r.0@ == record_name(b@, p as int),
        r.1 == bone_record(b@, p as int),
{
    let n = b.len();
    let name = record_name_exec(b, p, NAME_LEN);
    let t = p + 47;
    let k = BoneKeyframe {
        frame_index: u32_at(b, p + 15),
        translation: Vec3Bits { x: u32_at(b, p + 19), y: u32_at(b, p + 23), z: negate_bits(u32_at(b, p + 27)) },
        orientation: QuatBits {
            x: u32_at(b, p + 31),
            y: u32_at(b, p + 35),
            z: negate_bits(u32_at(b, p + 39)),
            w: negate_bits(u32_at(b, p + 43)),
        },
        interpolation_x: InterpolationParams { x1: b[t], y1: b[t + 4], x2: b[t + 8], y2: b[t + 12] },
        interpolation_y: InterpolationParams { x1: b[t + 1], y1: b[t + 5], x2: b[t + 9], y2: b[t + 13] },
        interpolation_z: InterpolationParams { x1: b[t + 2], y1: b[t + 6], x2: b[t + 10], y2: b[t + 14] },
        interpolation_r: InterpolationParams { x1: b[t + 3], y1: b[t + 7], x2: b[t + 11], y2: b[t + 15] },
        is_physics_simulation_enabled: true,
    };
    (name, k)
}

fn read_morph_record(b: &[u8], p: usize) -> (r: (String, MorphKeyframe))
    requires
        p + 23 <= b@.len(),
    ensures
        r.0@ == record_name(b@, p as int),
        r.1 == morph_record(b@, p as int),
{
    let n = b.len();
    let name = record_name_exec(b, p, NAME_LEN);
    (name, MorphKeyframe { frame_index: u32_at(b, p + 15), weight: u32_at(b, p + 19) })
}

fn check_header(b: &[u8]) -> (r: bool)
    requires
        b@.len() >= 30,
    ensures
        r == header_ok(b@),
{
    let v1 = magic(false);
    let v2 = magic(true);
    let mut ok1 = true;
    let mut ok2 = true;
    let mut i: usize = 0;
    while i < 25
        invariant
            i <= 25,
            b@.len() >= 30,
            v1@ == magic_v1(),
            v2@ == magic_v2(),
            ok1 == (forall|j: int| 0 <= j < i ==> b@[j] == v1@[j]),
            ok2 == (forall|j: int| 0 <= j < i ==> b@[j] == v2@[j]),
        decreases 25 - i,
    {
        ok1 = ok1 && b[i] == v1[i];
        ok2 = ok2 && b[i] == v2[i];
        i = i + 1;
    }
    proof {
        if ok1 {
            assert(b@.subrange(0, 25) =~= magic_v1());
        }
        if ok2 {
            assert(b@.subrange(0, 25) =~= magic_v2());
        }
        if b@.subrange(0, 25) == magic_v1() {
            assert forall|j: int| 0 <= j < 25 implies b@[j] == v1@[j] by {
                assert(b@.subrange(0, 25)[j] == b@[j]);
            }
        }
        if b@.subrange(0, 25) == magic_v2() {
            assert forall|j: int| 0 <= j < 25 implies b@[j] == v2@[j] by {
                assert(b@.subrange(0, 25)[j] == b@[j]);
            }
        }
    }
    ok1 || ok2
}

impl VmdFile {
    /// Decodes a VMD file held in memory.
    pub fn load_from_bytes(b: &[u8]) -> (r: Result<VmdFile, VmdError>)
        ensures
            match r {
                Ok(v) => vmd_accepts(b@) && v.motion.wf() && v.model_name@ == model_name_text(b@)
                    && bone_view(v.motion.bone_tracks@) == vmd_bones(b@, bone_count(b@) as nat)
                    && morph_view(v.motion.morph_tracks@) == vmd_morphs(b@, morph_count(b@) as nat),
                Err(VmdError::InvalidHeader) => b@.len() >= 30 && !header_ok(b@),
                Err(VmdError::Truncated) => !vmd_accepts(b@) && (b@.len() < 30 || header_ok(b@)),
            },
    {
        if b.len() < HEADER_LEN {
            return Err(VmdError::Truncated);
        }
        if !check_header(b) {
            return Err(VmdError::InvalidHeader);
        }
        if b.len() < 54 {
            return Err(VmdError::Truncated);
        }
        let model_name = record_name_exec(b, 30, MODEL_NAME_LEN);
        let nb = u32_at(b, 50);
        let mut motion = Motion::new();
        let mut pos: usize = 54;
        let mut k: u32 = 0;
        while k < nb
            invariant
                b@.len() >= 54,
                header_ok(b@),
                model_name@ == model_name_text(b@),
                nb as int == bone_count(b@),
                k <= nb,
                pos as int == 54 + 111 * k,
                pos <= b@.len(),
                motion.wf(),
                morph_view(motion.morph_tracks@) == Seq::<(Seq<char>, Seq<MorphKeyframe>)>::empty(),
                bone_view(motion.bone_tracks@) == vmd_bones(b@, k as nat),
            decreases nb - k,
        {
            if b.len() - pos < BONE_RECORD_LEN {
                proof {
                    assert(111 * (k as int) + 111 <= 111 * (nb as int)) by (nonlinear_arith)
                        requires k < nb;
                    assert(!vmd_accepts(b@));
                }
                return Err(VmdError::Truncated);
            }
            let (name, kf) = read_bone_record(b, pos);
            motion.insert_bone_keyframe(name.as_str(), kf);
            pos = pos + BONE_RECORD_LEN;
            k = k + 1;
        }
        if b.len() - pos < 4 {
            return Err(VmdError::Truncated);
        }
        let nm = u32_at(b, pos);
        pos = pos + 4;
        let mut k: u32 = 0;
        while k < nm
            invariant
                b@.len() >= 54,
                header_ok(b@),
                model_name@ == model_name_text(b@),
                pos as int == morph_section(b@) + 4 + 23 * k,
                morph_section(b@) + 4 <= b@.len(),
                nm as int == morph_count(b@),
                k <= nm,
                pos <= b@.len(),
                motion.wf(),
                bone_view(motion.bone_tracks@) == vmd_bones(b@, bone_count(b@) as nat),
                morph_view(motion.morph_tracks@) == vmd_morphs(b@, k as nat),
            decreases nm - k,
        {
            if b.len() - pos < MORPH_RECORD_LEN {
                proof {
                    assert(23 * (k as int) + 23 <= 23 * (nm as int)) by (nonlinear_arith)
                        requires k < nm;
                    assert(!vmd_accepts(b@));
                }
                return Err(VmdError::Truncated);
            }
            let (name, kf) = read_morph_record(b, pos);
            motion.insert_morph_keyframe(name.as_str(), kf);
            pos = pos + MORPH_RECORD_LEN;
            k = k + 1;
        }
        Ok(VmdFile { model_name, motion })
    }

    /// The largest frame index over all keyframes, 0 when there is none.
    pub fn max_frame(&self) -> (r: u32)
        requires
            self.motion.wf(),
        ensures
            r == self.motion.spec_duration(),
    {
        self.motion.duration()
    }
}

/// A loaded motion, ready to be sampled.
#[derive(Clone, Debug)]
pub struct VmdAnimation {
    pub motion: Motion,
}

impl VmdAnimation {
    pub open spec fn wf(&self) -> bool {
        self.motion.wf()
    }

    /// Takes the motion of a decoded file.
    pub fn from_vmd_file(vmd: VmdFile) -> (r: Self)
        ensures
            r.motion == vmd.motion,
    {
        VmdAnimation { motion: vmd.motion }
    }

    /// Decodes a VMD file held in memory.
    pub fn load_from_bytes(b: &[u8]) -> (r: Result<VmdAnimation, VmdError>)
        ensures
            match r {
                Ok(v) => vmd_accepts(b@) && v.wf()
                    && bone_view(v.motion.bone_tracks@) == vmd_bones(b@, bone_count(b@) as nat)
                    && morph_view(v.motion.morph_tracks@) == vmd_morphs(b@, morph_count(b@) as nat),
                Err(VmdError::InvalidHeader) => b@.len() >= 30 && !header_ok(b@),
                Err(VmdError::Truncated) => !vmd_accepts(b@) && (b@.len() < 30 || header_ok(b@)),
            },
    {
        match VmdFile::load_from_bytes(b) {
            Ok(v) => Ok(VmdAnimation::from_vmd_file(v)),
            Err(e) => Err(e),
        }
    }

    /// The largest frame index over all keyframes, 0 when there is none.
    pub fn max_frame(&self) -> (r: u32)
        requires
            self.wf(),
        ensures
            r == self.motion.spec_duration(),
    {
        self.motion.duration()
    }

    /// Whether the motion has a bone track named `name`.
    pub fn contains_bone_track(&self, name: &str) -> (r: bool)
        requires
            self.wf(),
        ensures
            r == exists|i: int| 0 <= i < self.motion.bone_tracks@.len() && self.motion.bone_tracks@[i].name@ == name@,
    {
        self.motion.contains_bone_track(name)
    }

    /// Whether the motion has a morph track named `name`.
    pub fn contains_morph_track(&self, name: &str) -> (r: bool)
        requires
            self.wf(),
        ensures
            r == exists|i: int| 0 <= i < self.motion.morph_tracks@.len() && self.motion.morph_tracks@[i].name@ == name@,
    {
        self.motion.contains_morph_track(name)
    }

    /// Names of the bone tracks, in order of first appearance.
    pub fn bone_track_names(&self) -> (r: Vec<String>)
        ensures
            r@.len() == self.motion.bone_tracks@.len(),
            forall|i: int| 0 <= i < r@.len() ==> r@[i]@ == self.motion.bone_tracks@[i].name@,
    {
        self.motion.bone_track_names()
    }

    /// Names of the morph tracks, in order of first appearance.
    pub fn morph_track_names(&self) -> (r: Vec<String>)
        ensures
            r@.len() == self.motion.morph_tracks@.len(),
            forall|i: int| 0 <= i < r@.len() ==> r@[i]@ == self.motion.morph_tracks@[i].name@,
    {
        self.motion.morph_track_names()
    }

    /// How the bone named `name` is sampled at frame `f`.
    pub fn bone_sample(&self, name: &str, f: u32) -> (r: BoneSample)
        requires
            self.wf(),
        ensures
            (exists|i: int| 0 <= i < self.motion.bone_tracks@.len() && self.motion.bone_tracks@[i].name@ == name@
                && bone_sampled(self.motion.bone_tracks@[i].track@, f, r))
            || ((forall|i: int| 0 <= i < self.motion.bone_tracks@.len() ==> self.motion.bone_tracks@[i].name@ != name@)
                && r == BoneSample::Identity),
    {
        self.motion.sample_bone(name, f)
    }

    /// How the morph named `name` is sampled at frame `f`.
    pub fn morph_sample(&self, name: &str, f: u32) -> (r: MorphSample)
        requires
            self.wf(),
        ensures
            (exists|i: int| 0 <= i < self.motion.morph_tracks@.len() && self.motion.morph_tracks@[i].name@ == name@
                && morph_sampled(self.motion.morph_tracks@[i].track@, f, r))
            || ((forall|i: int| 0 <= i < self.motion.morph_tracks@.len() ==> self.motion.morph_tracks@[i].name@ != name@)
                && r == MorphSample::Zero),
    {
        self.motion.sample_morph(name, f)
    }
}

} // verus!
