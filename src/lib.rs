//! Runtime core of an MMD character animation engine: keyframe tracks,
//! the VMD motion format, PMX record decoding, skeleton ordering and
//! morph-graph expansion, bone flags and physics bookkeeping, each with a
//! verified contract.
//!
//! Floating-point values read from the binary formats are carried as their
//! IEEE-754 bit patterns (`u32`); the float math that consumes them lives
//! outside the verified core.
pub mod bytes;
pub mod keyframe;
pub mod motion_track;
pub mod motion;
pub mod vmd;
pub mod pmx_text;
pub mod pmx;
pub mod skeleton;
pub mod bone_flags;
pub mod physics_plan;
pub mod morph;
