//! Little-endian integer decoding over byte slices.
use vstd::prelude::*;

verus! {

/// The unsigned 32-bit little-endian integer at `p`.
pub open spec fn u32_le(b: Seq<u8>, p: int) -> int {
    b[p] as int + b[p + 1] as int * 0x100 + b[p + 2] as int * 0x10000 + b[p + 3] as int * 0x1000000
}

/// The unsigned 16-bit little-endian integer at `p`.
pub open spec fn u16_le(b: Seq<u8>, p: int) -> int {
    b[p] as int + b[p + 1] as int * 0x100
}

/// Two's-complement reading of an unsigned value of `bits` bits.
pub open spec fn signed_of(u: int, bits: nat) -> int {
    if u >= pow2(bits) / 2 {
        u - pow2(bits)
    } else {
        u
    }
}

pub open spec fn pow2(bits: nat) -> int {
    if bits == 8 {
        0x100
    } else if bits == 16 {
        0x10000
    } else {
        0x1_0000_0000
    }
}

/// The signed 32-bit little-endian integer at `p`.
pub open spec fn i32_le(b: Seq<u8>, p: int) -> int {
    signed_of(u32_le(b, p), 32)
}

/// The signed 16-bit little-endian integer at `p`.
pub open spec fn i16_le(b: Seq<u8>, p: int) -> int {
    signed_of(u16_le(b, p), 16)
}

/// The signed 8-bit integer at `p`.
pub open spec fn i8_at(b: Seq<u8>, p: int) -> int {
    signed_of(b[p] as int, 8)
}

/// Reads a `u32` stored little-endian at `pos`; `None` when fewer than four
/// bytes remain.
pub fn read_u32_le(b: &[u8], pos: usize) -> (r: Option<u32>)
    ensures
        r.is_some() <==> pos as int + 4 <= b@.len(),
        r.is_some() ==> r.unwrap() as int == u32_le(b@, pos as int),
{
    if pos > b.len() || b.len() - pos < 4 {
        return None;
    }
    let b0 = b[pos] as u32;
    let b1 = b[pos + 1] as u32;
    let b2 = b[pos + 2] as u32;
    let b3 = b[pos + 3] as u32;
    Some(b0 + b1 * 0x100 + b2 * 0x10000 + b3 * 0x1000000)
}

/// Reads a `u16` stored little-endian at `pos`.
pub fn read_u16_le(b: &[u8], pos: usize) -> (r: Option<u16>)
    ensures
        r.is_some() <==> pos as int + 2 <= b@.len(),
        r.is_some() ==> r.unwrap() as int == u16_le(b@, pos as int),
{
    if pos > b.len() || b.len() - pos < 2 {
        return None;
    }
    let b0 = b[pos] as u16;
    let b1 = b[pos + 1] as u16;
    Some(b0 + b1 * 0x100)
}

/// Reads an `i32` stored little-endian at `pos`.
pub fn read_i32_le(b: &[u8], pos: usize) -> (r: Option<i32>)
    ensures
        r.is_some() <==> pos as int + 4 <= b@.len(),
        r.is_some() ==> r.unwrap() as int == i32_le(b@, pos as int),
{
    match read_u32_le(b, pos) {
        None => None,
        Some(u) => {
            if u < 0x8000_0000 {
                Some(u as i32)
            } else {
                Some(((u - 0x8000_0000) as i32) - 0x4000_0000 - 0x4000_0000)
            }
        },
    }
}

/// Reads an `i16` stored little-endian at `pos`.
pub fn read_i16_le(b: &[u8], pos: usize) -> (r: Option<i16>)
    ensures
        r.is_some() <==> pos as int + 2 <= b@.len(),
        r.is_some() ==> r.unwrap() as int == i16_le(b@, pos as int),
{
    match read_u16_le(b, pos) {
        None => None,
        Some(u) => {
            if u < 0x8000 {
                Some(u as i16)
            } else {
                Some(((u - 0x8000) as i16) - 0x4000 - 0x4000)
            }
        },
    }
}

/// Reads an `i8` at `pos`.
pub fn read_i8(b: &[u8], pos: usize) -> (r: Option<i8>)
    ensures
        r.is_some() <==> (pos as int) < b@.len(),
        r.is_some() ==> r.unwrap() as int == i8_at(b@, pos as int),
{
    if pos >= b.len() {
        return None;
    }
    let u = b[pos];
    if u < 0x80 {
        Some(u as i8)
    } else {
        Some(((u - 0x80) as i8) - 0x40 - 0x40)
    }
}

/// Reads one byte at `pos`.
pub fn read_u8(b: &[u8], pos: usize) -> (r: Option<u8>)
    ensures
        r.is_some() <==> (pos as int) < b@.len(),
        r.is_some() ==> r.unwrap() == b@[pos as int],
{
    if pos >= b.len() {
        return None;
    }
    Some(b[pos])
}

/// The `u32` stored little-endian at `pos`, which must be in bounds.
pub fn u32_at(b: &[u8], pos: usize) -> (r: u32)
    requires
        pos + 4 <= b@.len(),
    ensures
        r as int == u32_le(b@, pos as int),
{
    let b0 = b[pos] as u32;
    let b1 = b[pos + 1] as u32;
    let b2 = b[pos + 2] as u32;
    let b3 = b[pos + 3] as u32;
    b0 + b1 * 0x100 + b2 * 0x10000 + b3 * 0x1000000
}

/// Position of the first zero byte of `b[start..end]`, or `end`.
pub open spec fn nul_index(b: Seq<u8>, i: int, end: int) -> int
    decreases end - i,
{
    if i >= end {
        end
    } else if b[i] == 0 {
        i
    } else {
        nul_index(b, i + 1, end)
    }
}

/// The bytes of `b[start..end]` before the first zero byte.
pub open spec fn until_nul(b: Seq<u8>, start: int, end: int) -> Seq<u8> {
    b.subrange(start, nul_index(b, start, end))
}

/// Finds the first zero byte of `b[start..end]`; `end` when there is none.
pub fn find_nul(b: &[u8], start: usize, end: usize) -> (r: usize)
    requires
        start <= end <= b@.len(),
    ensures
        r as int == nul_index(b@, start as int, end as int),
        start <= r <= end,
{
    let mut i = start;
    while i < end && b[i] != 0
        invariant
            start <= i <= end,
            end <= b@.len(),
            nul_index(b@, i as int, end as int) == nul_index(b@, start as int, end as int),
        decreases end - i,
    {
        i = i + 1;
    }
    i
}

} // verus!
