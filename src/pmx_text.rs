//! PMX field decoding: length-prefixed text in the model's encoding and
//! signed indices of the model's declared widths.
use vstd::prelude::*;
use crate::bytes::{i16_le, i32_le, i8_at, read_i16_le, read_i32_le, read_i8};

verus! {

/// Text encoding declared in a PMX header.
#[derive(Clone, Copy, Debug, PartialEq, Eq)]
pub enum TextEncoding {
    Utf16Le,
    Utf8,
}

/// Width of an index field declared in a PMX header.
#[derive(Clone, Copy, Debug, PartialEq, Eq)]
pub enum IndexSize {
    I8,
    I16,
    I32,
}

/// The header settings that the record readers need.
#[derive(Clone, Copy, Debug, PartialEq, Eq)]
pub struct Settings {
    pub text_encoding: TextEncoding,
    pub bone_index_size: IndexSize,
    pub morph_index_size: IndexSize,
    pub rigidbody_index_size: IndexSize,
}

/// Why a PMX record could not be read.
#[derive(Clone, Copy, Debug, PartialEq, Eq)]
pub enum PmxError {
    /// The input ends inside the record (or a text length is negative).
    UnexpectedEnd,
    /// A text field is not valid in the declared encoding.
    DecodeText,
    /// An enumeration field holds an unknown code.
    InvalidCode,
}

/// What strict UTF-8 decoding makes of a byte string (`None`: malformed).
pub uninterp spec fn utf8_text(b: Seq<u8>) -> Option<Seq<char>>;

/// What strict UTF-16LE decoding makes of a byte string (`None`: malformed).
pub uninterp spec fn utf16le_text(b: Seq<u8>) -> Option<Seq<char>>;

/// Relies on `encoding_rs::UTF_8.decode_without_bom_handling_and_without_replacement`:
/// `None` on a malformed sequence, else the decoded text.
#[verifier::external_body]
fn decode_utf8_strict(b: &[u8]) -> (r: Option<String>)
    requires
        b@.len() <= 0x7fff_ffff,
    ensures
        match r {
            Some(s) => utf8_text(b@) == Some(s@),
            None => utf8_text(b@) is None,
        },
{
    match encoding_rs::UTF_8.decode_without_bom_handling_and_without_replacement(b) {
        Some(text) => Some(text.into_owned()),
        None => None,
    }
}

/// Relies on `encoding_rs::UTF_16LE.decode_without_bom_handling_and_without_replacement`:
/// `None` on a malformed sequence, else the decoded text.
#[verifier::external_body]
fn decode_utf16le_strict(b: &[u8]) -> (r: Option<String>)
    requires
        b@.len() <= 0x7fff_ffff,
    ensures
        match r {
            Some(s) => utf16le_text(b@) == Some(s@),
            None => utf16le_text(b@) is None,
        },
{
    match encoding_rs::UTF_16LE.decode_without_bom_handling_and_without_replacement(b) {
        Some(text) => Some(text.into_owned()),
        None => None,
    }
}

pub open spec fn decoded(enc: TextEncoding, b: Seq<u8>) -> Option<Seq<char>> {
    match enc {
        TextEncoding::Utf8 => utf8_text(b),
        TextEncoding::Utf16Le => utf16le_text(b),
    }
}

/// Byte length of the text field at `p`, as its prefix states it.
pub open spec fn text_len(b: Seq<u8>, p: int) -> int {
    i32_le(b, p)
}

/// Position just after the text field at `p`.
pub open spec fn text_end(b: Seq<u8>, p: int) -> int {
    p + 4 + text_len(b, p)
}

/// The first failure met reading the text field at `p`, if any.
pub open spec fn text_error(b: Seq<u8>, p: int, enc: TextEncoding) -> Option<PmxError> {
    if p + 4 > b.len() || text_len(b, p) < 0 || text_end(b, p) > b.len() {
        Some(PmxError::UnexpectedEnd)
    } else if decoded(enc, b.subrange(p + 4, text_end(b, p))) is None {
        Some(PmxError::DecodeText)
    } else {
        None
    }
}

/// The text of the field at `p` (meaningful when it reads without error).
pub open spec fn text_value(b: Seq<u8>, p: int, enc: TextEncoding) -> Seq<char> {
    decoded(enc, b.subrange(p + 4, text_end(b, p))).unwrap()
}

/// Reads the text field at `p`; returns the text and the position after it.
pub fn read_text(b: &[u8], p: usize, enc: TextEncoding) -> (r: Result<(String, usize), PmxError>)
    ensures
        match r {
            Ok((s, e)) => text_error(b@, p as int, enc) is None && s@ == text_value(b@, p as int, enc)
                && e as int == text_end(b@, p as int),
            Err(x) => text_error(b@, p as int, enc) == Some(x),
        },
{
    let n = match read_i32_le(b, p) {
        Some(n) => n,
        None => {
            return Err(PmxError::UnexpectedEnd);
        },
    };
    if n < 0 || b.len() - (p + 4) < n as usize {
        return Err(PmxError::UnexpectedEnd);
    }
    let start = p + 4;
    let end = start + n as usize;
    let slice = &b[start..end];
    let text = match enc {
        TextEncoding::Utf8 => decode_utf8_strict(slice),
        TextEncoding::Utf16Le => decode_utf16le_strict(slice),
    };
    match text {
        Some(s) => Ok((s, end)),
        None => Err(PmxError::DecodeText),
    }
}

pub open spec fn index_width(s: IndexSize) -> int {
    match s {
        IndexSize::I8 => 1,
        IndexSize::I16 => 2,
        IndexSize::I32 => 4,
    }
}

/// The signed index of width `s` at `p`.
pub open spec fn index_value(b: Seq<u8>, p: int, s: IndexSize) -> int {
    match s {
        IndexSize::I8 => i8_at(b, p),
        IndexSize::I16 => i16_le(b, p),
        IndexSize::I32 => i32_le(b, p),
    }
}

/// Reads a signed index of width `s` at `p`, widened to `i32`.
pub fn read_index(b: &[u8], p: usize, s: IndexSize) -> (r: Option<i32>)
    ensures
        r is Some <==> p + index_width(s) <= b@.len(),
        r matches Some(v) ==> v as int == index_value(b@, p as int, s),
{
    match s {
        IndexSize::I8 => match read_i8(b, p) {
            Some(v) => Some(v as i32),
            None => None,
        },
        IndexSize::I16 => match read_i16_le(b, p) {
            Some(v) => Some(v as i32),
            None => None,
        },
        IndexSize::I32 => read_i32_le(b, p),
    }
}

} // verus!
