use vstd::prelude::*;

verus! {

/// Whether the Unicode character with this scalar value is alphanumeric.
/// Stating the property takes the Unicode tables; the name stands for what
/// `char::is_alphanumeric` computes, a function of the character alone.
pub uninterp spec fn spec_alphanumeric_scalar(v: u32) -> bool;

/// Relies on char::from_u32: `Some` exactly for Unicode scalar values (below
/// the surrogate range or above it and at most U+10FFFF), holding the
/// character with that value.
#[verifier::external_body]
fn char_from_u32(v: u32) -> (r: Option<char>)
    ensures
        r matches Some(c) ==> c as u32 == v,
        (r is Some) == (v < 0xd800 || (0xe000 <= v && v <= 0x10ffff)),
{
    char::from_u32(v)
}

/// Relies on char::is_alphanumeric: whether the character is in the Unicode
/// Alphabetic or Number categories; the result depends on the character
/// alone.
#[verifier::external_body]
fn char_is_alphanumeric(c: char) -> (r: bool)
    ensures
        r == spec_alphanumeric_scalar(c as u32),
{
    c.is_alphanumeric()
}

/// The byte length of a UTF-8 sequence, read off its lead byte (a stray
/// continuation byte counts as one).
pub open spec fn spec_utf8_len(b: u8) -> int {
    if b < 0x80 {
        1
    } else if b < 0xc0 {
        1
    } else if b < 0xe0 {
        2
    } else if b < 0xf0 {
        3
    } else {
        4
    }
}

pub fn utf8_len(b: u8) -> (r: usize)
    ensures
        r as int == spec_utf8_len(b),
        1 <= r <= 4,
{
    if b < 0xc0 {
        1
    } else if b < 0xe0 {
        2
    } else if b < 0xf0 {
        3
    } else {
        4
    }
}

/// The scalar value a UTF-8 sequence of length `l` at the front of `t`
/// encodes.
pub open spec fn spec_decode_scalar(t: Seq<u8>, l: int) -> u32 {
    if l == 2 {
        (((t[0] & 0x1f) as u32) << 6u32) | ((t[1] & 0x3f) as u32)
    } else if l == 3 {
        ((((t[0] & 0x0f) as u32) << 12u32) | (((t[1] & 0x3f) as u32) << 6u32)) | ((t[2]
            & 0x3f) as u32)
    } else if l == 4 {
        (((((t[0] & 0x07) as u32) << 18u32) | (((t[1] & 0x3f) as u32) << 12u32)) | (((t[2]
            & 0x3f) as u32) << 6u32)) | ((t[3] & 0x3f) as u32)
    } else {
        t[0] as u32
    }
}

/// Whether the character opening `t` (of UTF-8 length `l`) is alphanumeric;
/// a byte sequence that encodes no Unicode scalar value counts as not
/// alphanumeric.
pub open spec fn spec_first_char_alphanumeric(t: Seq<u8>, l: int) -> bool {
    let v = spec_decode_scalar(t, l);
    (v < 0xd800 || (0xe000 <= v && v <= 0x10ffff)) && spec_alphanumeric_scalar(v)
}

pub fn first_char_alphanumeric(t: &[u8], l: usize) -> (r: bool)
    requires
        1 <= l <= 4,
        l as int <= t@.len(),
    ensures
        r == spec_first_char_alphanumeric(t@, l as int),
{
    let v: u32 = if l == 2 {
        (((t[0] & 0x1f) as u32) << 6u32) | ((t[1] & 0x3f) as u32)
    } else if l == 3 {
        ((((t[0] & 0x0f) as u32) << 12u32) | (((t[1] & 0x3f) as u32) << 6u32)) | ((t[2]
            & 0x3f) as u32)
    } else if l == 4 {
        (((((t[0] & 0x07) as u32) << 18u32) | (((t[1] & 0x3f) as u32) << 12u32)) | (((t[2]
            & 0x3f) as u32) << 6u32)) | ((t[3] & 0x3f) as u32)
    } else {
        t[0] as u32
    };
    match char_from_u32(v) {
        Some(c) => char_is_alphanumeric(c),
        None => false,
    }
}

} // verus!
