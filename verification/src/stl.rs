//! Decoding of either STL dialect, told apart by what parses.
use vstd::prelude::*;
use vstd::string::StringSliceAdditionalSpecFns;
use vstd::utf8::valid_utf8;
use crate::ascii::{
    begins, decode_text, facet_at, facet_head_at, keyword, parse_text, starts_with,
};
use crate::binary::{decode_binary, record};
pub use crate::binary::parse_binary_stl;
use crate::error::{DecodeError, Expected, TextError};
use crate::geometry::{outcome, Mesh, Triangle};
use crate::utf8::is_utf8;

verus! {

/// What a byte sequence decodes to as a text file: like
/// [`decode_text`], but bytes that are not UTF-8 are no text at all.
pub open spec fn decode_utf8_text(bytes: Seq<u8>) -> Result<Seq<Triangle>, TextError> {
    if valid_utf8(bytes) {
        decode_text(bytes)
    } else {
        Err(TextError::NotUtf8)
    }
}

/// What a byte sequence decodes to.
///
/// Bytes that begin with `solid` and decode as text are text. All others are
/// binary if they decode as binary. The prefix alone decides nothing but the
/// error: where both dialects fail on bytes that begin with `solid`, both
/// causes are reported.
pub open spec fn decode(bytes: Seq<u8>) -> Result<Seq<Triangle>, DecodeError> {
    if starts_with(bytes, 0, keyword(Expected::Solid)) {
        match decode_utf8_text(bytes) {
            Ok(triangles) => Ok(triangles),
            Err(text) => match decode_binary(bytes) {
                Ok(triangles) => Ok(triangles),
                Err(binary) => Err(DecodeError::Unrecognized { text, binary }),
            },
        }
    } else {
        match decode_binary(bytes) {
            Ok(triangles) => Ok(triangles),
            Err(binary) => Err(DecodeError::Binary(binary)),
        }
    }
}

/// Decodes text STL.
pub fn parse_ascii_stl(input: &str) -> (r: Result<Mesh, TextError>)
    ensures
        outcome(r) == decode_text(input.spec_bytes()),
        r matches Ok(mesh) ==> mesh.finite(),
{
    parse_text(input.as_bytes())
}

/// Decodes STL of either dialect.
pub fn parse_stl(data: &[u8]) -> (r: Result<Mesh, DecodeError>)
    ensures
        outcome(r) == decode(data@),
        r matches Ok(mesh) ==> mesh.finite(),
{
    if begins(data, 0, Expected::Solid) {
        let text: TextError = if is_utf8(data) {
            match parse_text(data) {
                Ok(mesh) => return Ok(mesh),
                Err(e) => e,
            }
        } else {
            TextError::NotUtf8
        };
        match parse_binary_stl(data) {
            Ok(mesh) => Ok(mesh),
            Err(binary) => Err(DecodeError::Unrecognized { text, binary }),
        }
    } else {
        match parse_binary_stl(data) {
            Ok(mesh) => Ok(mesh),
            Err(binary) => Err(DecodeError::Binary(binary)),
        }
    }
}

/// Bytes that do not begin with `solid` decode as binary STL does, or not
/// at all.
pub proof fn lemma_binary_without_prefix(bytes: Seq<u8>)
    requires
        !starts_with(bytes, 0, keyword(Expected::Solid)),
    ensures
        decode(bytes).is_ok() == decode_binary(bytes).is_ok(),
        decode_binary(bytes) matches Ok(triangles) ==> decode(bytes) == Ok::<_, DecodeError>(
            triangles,
        ),
{
}

/// A facet of a text has one normal: the one that it declares stands at
/// each of its corners.
pub proof fn lemma_facet_is_flat(text: Seq<u8>, from: int)
    ensures
        facet_at(text, from) matches Ok((triangle, _)) ==> triangle.flat() && (facet_head_at(
            text,
            from,
        ) matches Ok((normal, _)) && triangle.vertices[0].normal == normal),
{
}

/// A record of a binary file has one normal.
pub proof fn lemma_record_is_flat(bytes: Seq<u8>, index: int)
    ensures
        record(bytes, index).flat(),
{
}

/// The two dialects make the same triangle of the same numbers: a facet of
/// a text and a record of a binary file that hold the same normal and the
/// same three corners decode to one and the same triangle.
pub proof fn lemma_dialects_agree(text: Seq<u8>, from: int, bytes: Seq<u8>, index: int)
    requires
        facet_at(text, from).is_ok(),
        facet_at(text, from).unwrap().0.same_numbers(record(bytes, index)),
    ensures
        facet_at(text, from).unwrap().0 == record(bytes, index),
{
    let triangle = facet_at(text, from).unwrap().0;
    lemma_facet_is_flat(text, from);
    assert(triangle.vertices =~= record(bytes, index).vertices);
}

} // verus!
