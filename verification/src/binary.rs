//! The binary STL dialect: a header of 84 bytes, then records of 50.
use vstd::prelude::*;
use crate::error::BinaryError;
use crate::geometry::{
    first_non_finite, lemma_first_non_finite, outcome, Mesh, Point3, Triangle, Vector3, Vertex,
};
use crate::scalar::Scalar;

verus! {

/// Bytes before the first record: 80 of free text and 4 of count.
pub const HEADER_SIZE: usize = 84;

/// Bytes of one record: a normal, three corners, two bytes of attributes.
pub const RECORD_SIZE: usize = 50;

/// The little-endian number in the four bytes from `at` on.
pub open spec fn word_at(bytes: Seq<u8>, at: int) -> u32 {
    (bytes[at] + 0x100 * bytes[at + 1] + 0x1_0000 * bytes[at + 2] + 0x100_0000 * bytes[at + 3]) as u32
}

pub open spec fn scalar_at(bytes: Seq<u8>, at: int) -> Scalar {
    Scalar { bits: word_at(bytes, at) }
}

/// The number of triangles that the header declares.
pub open spec fn declared_count(bytes: Seq<u8>) -> nat {
    word_at(bytes, 80) as nat
}

/// The length that the header asks for.
pub open spec fn declared_size(bytes: Seq<u8>) -> nat {
    84 + 50 * declared_count(bytes)
}

pub open spec fn point_at(bytes: Seq<u8>, at: int) -> Point3 {
    Point3 { x: scalar_at(bytes, at), y: scalar_at(bytes, at + 4), z: scalar_at(bytes, at + 8) }
}

/// The triangle of record `index`: its corners in file order, each with the
/// normal of the record.
pub open spec fn record(bytes: Seq<u8>, index: int) -> Triangle {
    let at = 84 + 50 * index;
    let n = point_at(bytes, at);
    Triangle::facet(
        Vector3 { x: n.x, y: n.y, z: n.z },
        point_at(bytes, at + 12),
        point_at(bytes, at + 24),
        point_at(bytes, at + 36),
    )
}

/// The first `count` records, in file order.
pub open spec fn records(bytes: Seq<u8>, count: nat) -> Seq<Triangle> {
    Seq::new(count, |i: int| record(bytes, i))
}

/// What a byte sequence decodes to as binary STL.
///
/// The size checks come first: too short for a header, then too short for
/// the records declared. A file of the right size, or longer, holds the
/// declared records unless one of them has a corner that is not finite.
pub open spec fn decode_binary(bytes: Seq<u8>) -> Result<Seq<Triangle>, BinaryError> {
    if bytes.len() < 84 {
        Err(BinaryError::TooSmall { length: bytes.len() as usize })
    } else if bytes.len() < declared_size(bytes) {
        Err(BinaryError::Truncated { declared: word_at(bytes, 80), length: bytes.len() as usize })
    } else {
        let triangles = records(bytes, declared_count(bytes));
        match first_non_finite(triangles, 0) {
            Some(i) => Err(BinaryError::NonFinite { triangle: i as usize }),
            None => Ok(triangles),
        }
    }
}

fn read_word(data: &[u8], at: usize) -> (r: u32)
    requires
        at + 4 <= data.len(),
    ensures
        r == word_at(data@, at as int),
{
    let b0: u32 = data[at] as u32;
    let b1: u32 = data[at + 1] as u32;
    let b2: u32 = data[at + 2] as u32;
    let b3: u32 = data[at + 3] as u32;
    b0 + 0x100 * b1 + 0x1_0000 * b2 + 0x100_0000 * b3
}

fn read_point(data: &[u8], at: usize) -> (r: Point3)
    requires
        at + 12 <= data.len(),
    ensures
        r == point_at(data@, at as int),
{
    Point3 {
        x: Scalar { bits: read_word(data, at) },
        y: Scalar { bits: read_word(data, at + 4) },
        z: Scalar { bits: read_word(data, at + 8) },
    }
}

fn read_record(data: &[u8], index: usize) -> (r: Triangle)
    requires
        84 + 50 * (index + 1) <= data.len(),
    ensures
        r == record(data@, index as int),
{
    let at: usize = HEADER_SIZE + RECORD_SIZE * index;
    let n = read_point(data, at);
    let normal = Vector3 { x: n.x, y: n.y, z: n.z };
    Triangle::new(
        Vertex { position: read_point(data, at + 12), normal },
        Vertex { position: read_point(data, at + 24), normal },
        Vertex { position: read_point(data, at + 36), normal },
    )
}

/// Decodes binary STL.
pub fn parse_binary_stl(data: &[u8]) -> (r: Result<Mesh, BinaryError>)
    ensures
        outcome(r) == decode_binary(data@),
        r matches Ok(mesh) ==> mesh.finite() && mesh@.len() == declared_count(data@),
{
    let length: usize = data.len();
    if length < HEADER_SIZE {
        return Err(BinaryError::TooSmall { length });
    }
    let declared: u32 = read_word(data, 80);
    if (length as u64) < 84 + 50 * (declared as u64) {
        return Err(BinaryError::Truncated { declared, length });
    }
    let count: usize = declared as usize;
    let ghost triangles = records(data@, count as nat);
    let mut mesh = Mesh::with_capacity(count);
    let mut i: usize = 0;
    while i < count
        invariant
            i <= count,
            count == declared_count(data@),
            84 + 50 * count <= data@.len(),
            triangles == records(data@, count as nat),
            mesh@ == triangles.subrange(0, i as int),
            first_non_finite(triangles, 0) == first_non_finite(triangles, i as int),
        decreases count - i,
    {
        let triangle = read_record(data, i);
        if !triangle.is_finite() {
            return Err(BinaryError::NonFinite { triangle: i });
        }
        mesh.add_triangle(triangle);
        i += 1;
        assert(mesh@ =~= triangles.subrange(0, i as int));
    }
    proof {
        assert(mesh@ =~= triangles);
        lemma_first_non_finite(triangles, 0);
    }
    Ok(mesh)
}

/// A sequence of exactly the declared size whose corners are all finite
/// decodes, and to as many triangles as its header declares.
pub proof fn lemma_declared_count_decodes(bytes: Seq<u8>)
    requires
        bytes.len() == declared_size(bytes),
        forall|i: int| 0 <= i < declared_count(bytes) ==> (#[trigger] record(bytes, i)).finite(),
    ensures
        decode_binary(bytes) == Ok::<_, BinaryError>(records(bytes, declared_count(bytes))),
        decode_binary(bytes).unwrap().len() == declared_count(bytes),
{
    let triangles = records(bytes, declared_count(bytes));
    lemma_first_non_finite(triangles, 0);
}

/// Of a sequence of exactly the declared size, no proper prefix decodes:
/// with bytes missing at the end the decoder fails, whatever is left.
pub proof fn lemma_truncation_fails(bytes: Seq<u8>, kept: int)
    requires
        bytes.len() == declared_size(bytes),
        0 <= kept < bytes.len(),
    ensures
        decode_binary(bytes.subrange(0, kept)).is_err(),
        kept < 84 ==> decode_binary(bytes.subrange(0, kept)) == Err::<Seq<Triangle>, _>(
            BinaryError::TooSmall { length: kept as usize },
        ),
        kept >= 84 ==> decode_binary(bytes.subrange(0, kept)) == Err::<Seq<Triangle>, _>(
            BinaryError::Truncated { declared: word_at(bytes, 80), length: kept as usize },
        ),
{
    let left = bytes.subrange(0, kept);
    if kept >= 84 {
        assert(word_at(left, 80) == word_at(bytes, 80));
    }
}

/// A byte that decoding looks at: one of the count, or one of the twelve
/// numbers of a record. The 80 bytes of the header before the count and the
/// two bytes of attributes behind each record are the others.
pub open spec fn read_at(at: int) -> bool {
    80 <= at < 84 || (84 <= at && (at - 84) % 50 < 48)
}

/// Decoding depends on nothing but the length and the bytes that it looks
/// at: two sequences of one length that agree in those decode alike,
/// whatever their headers and their attribute bytes hold.
pub proof fn lemma_header_and_attributes_ignored(a: Seq<u8>, b: Seq<u8>)
    requires
        a.len() == b.len(),
        forall|at: int| 0 <= at < a.len() && read_at(at) ==> a[at] == b[at],
    ensures
        decode_binary(a) == decode_binary(b),
{
    if a.len() >= 84 {
        assert(read_at(80) && read_at(81) && read_at(82) && read_at(83));
        assert(word_at(a, 80) == word_at(b, 80));
        if a.len() >= declared_size(a) {
            let count = declared_count(a);
            assert forall|i: int| 0 <= i < count implies record(a, i) == record(b, i) by {
                let base = 84 + 50 * i;
                assert forall|at: int| base <= at < base + 48 implies a[at] == b[at] by {
                    vstd::arithmetic::div_mod::lemma_fundamental_div_mod_converse(
                        at - 84,
                        50,
                        i,
                        at - base,
                    );
                    assert(read_at(at));
                }
                lemma_record_reads(a, b, i);
            }
            assert(records(a, count) =~= records(b, count));
        }
    }
}

/// A record is made of the 48 bytes of its numbers.
proof fn lemma_record_reads(a: Seq<u8>, b: Seq<u8>, index: int)
    requires
        forall|at: int| 84 + 50 * index <= at < 84 + 50 * index + 48 ==> a[at] == b[at],
    ensures
        record(a, index) == record(b, index),
{
}

/// What follows the records that the header declares is not looked at: a
/// sequence that holds them all decodes as it does with more bytes behind
/// it.
pub proof fn lemma_trailing_bytes_ignored(bytes: Seq<u8>, more: Seq<u8>)
    requires
        bytes.len() >= 84,
        bytes.len() >= declared_size(bytes),
    ensures
        decode_binary(bytes + more) == decode_binary(bytes),
{
    let longer = bytes + more;
    assert(word_at(longer, 80) == word_at(bytes, 80));
    let count = declared_count(bytes);
    assert forall|i: int| 0 <= i < count implies record(longer, i) == record(bytes, i) by {
        lemma_record_reads(longer, bytes, i);
    }
    assert(records(longer, count) =~= records(bytes, count));
}

} // verus!
