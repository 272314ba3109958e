//! The pixels that the bounding box of a triangle holds.
use vstd::prelude::*;
use crate::scalar::Scalar;

verus! {

/// A corner of a triangle on the screen: pixel coordinates and the depth
/// that is compared.
#[derive(Clone, Copy, Debug, PartialEq, Eq, Structural)]
pub struct ScreenPoint {
    pub x: Scalar,
    pub y: Scalar,
    pub depth: Scalar,
}

/// The least of three numbers, as `a.min(b).min(c)` gives it.
pub open spec fn least(a: Scalar, b: Scalar, c: Scalar) -> Scalar {
    a.lesser(b).lesser(c)
}

/// The greatest of three numbers, as `a.max(b).max(c)` gives it.
pub open spec fn greatest(a: Scalar, b: Scalar, c: Scalar) -> Scalar {
    a.greater(b).greater(c)
}

/// Pixel `p` of a row or column of `limit` pixels lies in the span of three
/// coordinates: between the floor of the least and the ceiling of the
/// greatest, both included.
pub open spec fn spans(a: Scalar, b: Scalar, c: Scalar, limit: nat, p: int) -> bool {
    &&& 0 <= p < limit
    &&& least(a, b, c).floor_i32() <= p
    &&& p <= greatest(a, b, c).ceil_i32()
}

/// Pixel `(x, y)` of a frame of `width` by `height` lies in the bounding box
/// of a triangle.
pub open spec fn boxed(corners: [ScreenPoint; 3], width: nat, height: nat, x: int, y: int) -> bool {
    &&& spans(corners[0].x, corners[1].x, corners[2].x, width, x)
    &&& spans(corners[0].y, corners[1].y, corners[2].y, height, y)
}

/// The pixels of a row or column of `limit` pixels that lie in the span of
/// three coordinates, as a range that excludes its end.
pub fn span(a: Scalar, b: Scalar, c: Scalar, limit: usize) -> (r: (usize, usize))
    ensures
        r.0 <= r.1 <= limit,
        forall|p: int| r.0 <= p < r.1 <==> spans(a, b, c, limit as nat, p),
{
    let low: i32 = a.min(b).min(c).floor_to_i32();
    let high: i32 = a.max(b).max(c).ceil_to_i32();
    if high < 0 {
        return (0, 0);
    }
    let first: usize = if low < 0 {
        0
    } else {
        low as usize
    };
    let behind: usize = if (high as usize) < limit {
        high as usize + 1
    } else {
        limit
    };
    if first >= behind {
        (0, 0)
    } else {
        (first, behind)
    }
}

} // verus!
