//! Keyframes as stored in a motion: integer frame indices, float values as
//! IEEE-754 bit patterns, and the four-byte Bézier parameter tuples.
use vstd::prelude::*;

verus! {

/// A 3-vector of `f32` bit patterns.
#[derive(Clone, Copy, Debug, PartialEq, Eq)]
pub struct Vec3Bits {
    pub x: u32,
    pub y: u32,
    pub z: u32,
}

/// A quaternion `(x, y, z, w)` of `f32` bit patterns.
#[derive(Clone, Copy, Debug, PartialEq, Eq)]
pub struct QuatBits {
    pub x: u32,
    pub y: u32,
    pub z: u32,
    pub w: u32,
}

/// The four Bézier control bytes of one channel: control points
/// `(x1, y1)` and `(x2, y2)`, each coordinate in `0..=127`.
#[derive(Clone, Copy, Debug, PartialEq, Eq)]
pub struct InterpolationParams {
    pub x1: u8,
    pub y1: u8,
    pub x2: u8,
    pub y2: u8,
}

/// One bone keyframe in engine (right-handed) coordinates.
///
/// The orientation is stored as read (with the handedness flip applied);
/// it is normalised where it is turned into a quaternion.
#[derive(Clone, Copy, Debug, PartialEq, Eq)]
pub struct BoneKeyframe {
    pub frame_index: u32,
    pub translation: Vec3Bits,
    pub orientation: QuatBits,
    pub interpolation_x: InterpolationParams,
    pub interpolation_y: InterpolationParams,
    pub interpolation_z: InterpolationParams,
    pub interpolation_r: InterpolationParams,
    pub is_physics_simulation_enabled: bool,
}

/// One morph keyframe; `weight` is the bit pattern of an `f32`.
#[derive(Clone, Copy, Debug, PartialEq, Eq)]
pub struct MorphKeyframe {
    pub frame_index: u32,
    pub weight: u32,
}

/// Bit pattern of the `f32` whose sign is flipped (IEEE-754 negation).
pub open spec fn negated_bits(b: u32) -> u32 {
    if b >= 0x8000_0000 {
        (b - 0x8000_0000) as u32
    } else {
        (b + 0x8000_0000) as u32
    }
}

/// Negates the `f32` held as bits `b`.
pub fn negate_bits(b: u32) -> (r: u32)
    ensures
        r == negated_bits(b),
{
    if b >= 0x8000_0000 {
        b - 0x8000_0000
    } else {
        b + 0x8000_0000
    }
}

} // verus!
