//! Transcoding of UTF-16LE export files to UTF-8 text.
use vstd::prelude::*;
use utf16string::{Utf16Error, WStr, LE};

verus! {

#[verifier::external_type_specification]
#[verifier::external_body]
pub struct ExUtf16Error(Utf16Error);

/// The 16-bit code units of a byte sequence read as little-endian pairs
/// (a trailing odd byte is left out).
pub open spec fn utf16le_units(bytes: Seq<u8>) -> Seq<int> {
    Seq::new(bytes.len() / 2, |i: int| bytes[2 * i] as int + 256 * bytes[2 * i + 1] as int)
}

pub open spec fn is_leading_surrogate(u: int) -> bool {
    0xD800 <= u <= 0xDBFF
}

pub open spec fn is_trailing_surrogate(u: int) -> bool {
    0xDC00 <= u <= 0xDFFF
}

/// Every trailing surrogate directly follows a leading one, and every
/// leading surrogate is directly followed by a trailing one.
pub open spec fn units_valid(u: Seq<int>) -> bool
    decreases u.len(),
{
    if u.len() == 0 {
        true
    } else if is_trailing_surrogate(u[0]) {
        false
    } else if is_leading_surrogate(u[0]) {
        u.len() >= 2 && is_trailing_surrogate(u[1]) && units_valid(u.subrange(2, u.len() as int))
    } else {
        units_valid(u.drop_first())
    }
}

/// The bytes are well-formed UTF-16LE: an even count of bytes whose code
/// units pair their surrogates.
pub open spec fn utf16le_valid(bytes: Seq<u8>) -> bool {
    bytes.len() % 2 == 0 && units_valid(utf16le_units(bytes))
}

/// The code points that well-formed code units stand for: a surrogate pair
/// gives one code point above 0xFFFF, any other unit gives itself.
pub open spec fn code_points(u: Seq<int>) -> Seq<int>
    decreases u.len(),
{
    if u.len() == 0 {
        Seq::empty()
    } else if is_leading_surrogate(u[0]) && u.len() >= 2 {
        seq![0x10000 + (u[0] - 0xD800) * 0x400 + (u[1] - 0xDC00)] + code_points(
            u.subrange(2, u.len() as int),
        )
    } else {
        seq![u[0]] + code_points(u.drop_first())
    }
}

/// The code points of a string.
pub open spec fn char_codes(s: Seq<char>) -> Seq<int> {
    s.map_values(|c: char| c as int)
}

/// Bytes that are not valid UTF-16LE.
#[derive(Debug, PartialEq, Eq, Structural)]
pub enum EncodingError {
    InvalidUtf16,
}

/// Relies on utf16string's `WStr::<LE>::from_utf16`, which accepts exactly
/// the well-formed UTF-16LE byte slices, and `WStr::to_utf8`, which decodes
/// them unit by unit, joining surrogate pairs.
#[verifier::external_body]
fn decode_utf16le(bytes: &[u8]) -> (r: Result<String, Utf16Error>)
    ensures
        r is Ok <==> utf16le_valid(bytes@),
        r is Ok ==> char_codes(r->Ok_0@) == code_points(utf16le_units(bytes@)),
{
    let s: &WStr<LE> = WStr::from_utf16(bytes)?;
    Ok(s.to_utf8())
}

/// Converts UTF-16LE bytes to a string; fails exactly on bytes that are not
/// well-formed UTF-16LE.
pub fn convert_to_utf8(utf16: &[u8]) -> (r: Result<String, EncodingError>)
    ensures
        r is Ok <==> utf16le_valid(utf16@),
        r is Ok ==> char_codes(r->Ok_0@) == code_points(utf16le_units(utf16@)),
        r is Err ==> r == Err::<String, EncodingError>(EncodingError::InvalidUtf16),
        utf16@.len() % 2 == 1 ==> r is Err,
        utf16@.len() == 0 ==> r is Ok && r->Ok_0@.len() == 0,
{
    let r = match decode_utf16le(utf16) {
        Ok(s) => Ok(s),
        Err(_) => Err(EncodingError::InvalidUtf16),
    };
    proof {
        if utf16@.len() == 0 {
            assert(utf16le_units(utf16@).len() == 0);
            assert(units_valid(utf16le_units(utf16@)));
            assert(code_points(utf16le_units(utf16@)).len() == 0);
        }
    }
    r
}

} // verus!
