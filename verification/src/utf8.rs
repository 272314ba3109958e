//! Telling UTF-8 from other bytes.
use vstd::prelude::*;
use vstd::utf8::{
    length_of_first_scalar, partial_valid_partial_invalid_utf8, partial_valid_utf8,
    partial_valid_utf8_extend, valid_first_scalar, valid_utf8,
};

verus! {

fn continues(byte: u8) -> (r: bool)
    ensures
        r == vstd::utf8::is_continuation_byte(byte),
{
    0x80 <= byte && byte <= 0xbf
}

/// A code point is a scalar value that `width` bytes are not too many for.
fn well_coded(codepoint: u32, width: usize) -> (r: bool)
    ensures
        r == (vstd::utf8::not_overlong_encoding(codepoint, width as int)
            && vstd::utf8::not_surrogate(codepoint)),
{
    let long_enough = if width == 2 {
        0x80 <= codepoint
    } else if width == 3 {
        0x800 <= codepoint
    } else if width == 4 {
        0x10000 <= codepoint && codepoint <= 0x10ffff
    } else {
        true
    };
    long_enough && !(0xD800 <= codepoint && codepoint <= 0xDFFF)
}

/// The number of bytes of the scalar value that is encoded at `at`, and 0
/// where none is.
fn scalar_width(data: &[u8], at: usize) -> (width: usize)
    requires
        at < data.len(),
    ensures
        width == 0 <==> !valid_first_scalar(data@.subrange(at as int, data@.len() as int)),
        width != 0 ==> width == length_of_first_scalar(
            data@.subrange(at as int, data@.len() as int),
        ) && at + width <= data.len(),
{
    let ghost rest = data@.subrange(at as int, data@.len() as int);
    let left: usize = data.len() - at;
    let b0: u8 = data[at];
    assert(rest[0] == b0);
    if b0 <= 0x7f {
        if well_coded((b0 & 0x7F) as u32, 1) {
            1
        } else {
            0
        }
    } else if 0xc0 <= b0 && b0 <= 0xdf {
        if left < 2 {
            return 0;
        }
        let b1: u8 = data[at + 1];
        assert(rest[1] == b1);
        if continues(b1) && well_coded((((b0 & 0x1F) as u32) << 6) | ((b1 & 0x3f) as u32), 2) {
            2
        } else {
            0
        }
    } else if 0xe0 <= b0 && b0 <= 0xef {
        if left < 3 {
            return 0;
        }
        let b1: u8 = data[at + 1];
        let b2: u8 = data[at + 2];
        assert(rest[1] == b1 && rest[2] == b2);
        if continues(b1) && continues(b2) && well_coded(
            (((b0 & 0x0F) as u32) << 12) | (((b1 & 0x3f) as u32) << 6) | ((b2 & 0x3f) as u32),
            3,
        ) {
            3
        } else {
            0
        }
    } else if 0xf0 <= b0 && b0 <= 0xf7 {
        if left < 4 {
            return 0;
        }
        let b1: u8 = data[at + 1];
        let b2: u8 = data[at + 2];
        let b3: u8 = data[at + 3];
        assert(rest[1] == b1 && rest[2] == b2 && rest[3] == b3);
        if continues(b1) && continues(b2) && continues(b3) && well_coded(
            (((b0 & 0x07) as u32) << 18) | (((b1 & 0x3f) as u32) << 12) | (((b2 & 0x3f) as u32)
                << 6) | ((b3 & 0x3f) as u32),
            4,
        ) {
            4
        } else {
            0
        }
    } else {
        0
    }
}

/// Tells whether the bytes are UTF-8.
pub fn is_utf8(data: &[u8]) -> (r: bool)
    ensures
        r == valid_utf8(data@),
{
    let mut at: usize = 0;
    assert(data@.subrange(0, 0) =~= Seq::<u8>::empty());
    while at < data.len()
        invariant
            at <= data.len(),
            partial_valid_utf8(data@, at as int),
        decreases data.len() - at,
    {
        let width = scalar_width(data, at);
        if width == 0 {
            proof {
                let rest = data@.subrange(at as int, data@.len() as int);
                assert(rest.len() != 0);
                assert(!valid_utf8(rest));
                partial_valid_partial_invalid_utf8(data@, at as int);
            }
            return false;
        }
        proof {
            partial_valid_utf8_extend(data@, at as int);
        }
        at += width;
    }
    assert(data@.subrange(0, data@.len() as int) =~= data@);
    true
}

} // verus!
