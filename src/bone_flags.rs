//! Engine bone flags and their derivation from the PMX bone flag field.
use vstd::prelude::*;

verus! {

pub const ROTATABLE: u32 = 0x001;
pub const MOVABLE: u32 = 0x002;
pub const IK: u32 = 0x004;
pub const APPEND_ROTATE: u32 = 0x008;
pub const APPEND_TRANSLATE: u32 = 0x010;
pub const APPEND_LOCAL: u32 = 0x020;
pub const FIXED_AXIS: u32 = 0x040;
pub const LOCAL_AXIS: u32 = 0x080;
pub const DEFORM_AFTER_PHYSICS: u32 = 0x100;
pub const IK_ENABLED: u32 = 0x200;

/// PMX bone flag bits that the engine reads.
pub const PMX_ROTATABLE: u16 = 0x0002;
pub const PMX_MOVABLE: u16 = 0x0004;
pub const PMX_INVERSE_KINEMATICS: u16 = 0x0020;
pub const PMX_ADD_LOCAL_DEFORM: u16 = 0x0080;
pub const PMX_ADD_ROTATION: u16 = 0x0100;
pub const PMX_ADD_MOVEMENT: u16 = 0x0200;
pub const PMX_FIXED_AXIS: u16 = 0x0400;
pub const PMX_LOCAL_AXIS: u16 = 0x0800;
pub const PMX_PHYSICAL_TRANSFORM: u16 = 0x1000;

/// A set of engine bone flags.
#[derive(Clone, Copy, Debug, PartialEq, Eq, Default)]
pub struct BoneFlags {
    pub bits: u32,
}

/// Whether every bit of `f` is set in `bits`.
pub open spec fn has_flags(bits: u32, f: u32) -> bool {
    bits & f == f
}

/// Whether the PMX field `pmx` has bit `b` set.
pub open spec fn pmx_has(pmx: u16, b: u16) -> bool {
    pmx & b != 0
}

impl BoneFlags {
    /// No flag set.
    pub fn empty() -> (r: BoneFlags)
        ensures
            r.bits == 0,
    {
        BoneFlags { bits: 0 }
    }

    /// The flags whose bits are `bits`.
    pub fn from_bits(bits: u32) -> (r: BoneFlags)
        ensures
            r.bits == bits,
    {
        BoneFlags { bits }
    }

    /// Whether every flag of `f` is set.
    pub fn contains(&self, f: u32) -> (r: bool)
        ensures
            r == has_flags(self.bits, f),
    {
        self.bits & f == f
    }

    /// Sets the flags of `f`.
    pub fn insert(&mut self, f: u32)
        ensures
            final(self).bits == old(self).bits | f,
    {
        self.bits = self.bits | f;
    }

    /// Clears the flags of `f`.
    pub fn remove(&mut self, f: u32)
        ensures
            final(self).bits == old(self).bits & !f,
    {
        self.bits = self.bits & !f;
    }

    /// Sets or clears the flags of `f`.
    pub fn set(&mut self, f: u32, on: bool)
        ensures
            final(self).bits == if on { old(self).bits | f } else { old(self).bits & !f },
    {
        if on {
            self.insert(f);
        } else {
            self.remove(f);
        }
    }

    /// The engine flags of a PMX bone flag field: each engine flag is set
    /// exactly when its PMX bit is; `IK_ENABLED` is left clear.
    pub fn from_pmx_bits(pmx: u16) -> (r: BoneFlags)
        ensures
            has_flags(r.bits, ROTATABLE) == pmx_has(pmx, PMX_ROTATABLE),
            has_flags(r.bits, MOVABLE) == pmx_has(pmx, PMX_MOVABLE),
            has_flags(r.bits, IK) == pmx_has(pmx, PMX_INVERSE_KINEMATICS),
            has_flags(r.bits, APPEND_ROTATE) == pmx_has(pmx, PMX_ADD_ROTATION),
            has_flags(r.bits, APPEND_TRANSLATE) == pmx_has(pmx, PMX_ADD_MOVEMENT),
            has_flags(r.bits, APPEND_LOCAL) == pmx_has(pmx, PMX_ADD_LOCAL_DEFORM),
            has_flags(r.bits, FIXED_AXIS) == pmx_has(pmx, PMX_FIXED_AXIS),
            has_flags(r.bits, LOCAL_AXIS) == pmx_has(pmx, PMX_LOCAL_AXIS),
            has_flags(r.bits, DEFORM_AFTER_PHYSICS) == pmx_has(pmx, PMX_PHYSICAL_TRANSFORM),
            r.bits & !0x1ffu32 == 0,
    {
        let f0: u32 = if pmx & PMX_ROTATABLE != 0 { ROTATABLE } else { 0 };
        let f1: u32 = if pmx & PMX_MOVABLE != 0 { MOVABLE } else { 0 };
        let f2: u32 = if pmx & PMX_INVERSE_KINEMATICS != 0 { IK } else { 0 };
        let f3: u32 = if pmx & PMX_ADD_ROTATION != 0 { APPEND_ROTATE } else { 0 };
        let f4: u32 = if pmx & PMX_ADD_MOVEMENT != 0 { APPEND_TRANSLATE } else { 0 };
        let f5: u32 = if pmx & PMX_ADD_LOCAL_DEFORM != 0 { APPEND_LOCAL } else { 0 };
        let f6: u32 = if pmx & PMX_FIXED_AXIS != 0 { FIXED_AXIS } else { 0 };
        let f7: u32 = if pmx & PMX_LOCAL_AXIS != 0 { LOCAL_AXIS } else { 0 };
        let f8: u32 = if pmx & PMX_PHYSICAL_TRANSFORM != 0 { DEFORM_AFTER_PHYSICS } else { 0 };
        let bits = f0 | f1 | f2 | f3 | f4 | f5 | f6 | f7 | f8;
        assert(
            (bits & 0x001 == 0x001) == (f0 != 0) && (bits & 0x002 == 0x002) == (f1 != 0)
            && (bits & 0x004 == 0x004) == (f2 != 0) && (bits & 0x008 == 0x008) == (f3 != 0)
            && (bits & 0x010 == 0x010) == (f4 != 0) && (bits & 0x020 == 0x020) == (f5 != 0)
            && (bits & 0x040 == 0x040) == (f6 != 0) && (bits & 0x080 == 0x080) == (f7 != 0)
            && (bits & 0x100 == 0x100) == (f8 != 0) && bits & !0x1ffu32 == 0
        ) by (bit_vector)
            requires
                f0 == 0 || f0 == 0x001,
                f1 == 0 || f1 == 0x002,
                f2 == 0 || f2 == 0x004,
                f3 == 0 || f3 == 0x008,
                f4 == 0 || f4 == 0x010,
                f5 == 0 || f5 == 0x020,
                f6 == 0 || f6 == 0x040,
                f7 == 0 || f7 == 0x080,
                f8 == 0 || f8 == 0x100,
                bits == f0 | f1 | f2 | f3 | f4 | f5 | f6 | f7 | f8,
        ;
        BoneFlags { bits }
    }
}

} // verus!
