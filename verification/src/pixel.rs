//! One pixel, what is sampled of a triangle there, and which of the two
//! shows.
use vstd::prelude::*;
use crate::bounds::ScreenPoint;
use crate::scalar::Scalar;

verus! {

/// The pattern of `1e-6`: a triangle whose doubled area on the screen is
/// closer to zero has no inside.
pub const AREA_EPSILON_BITS: u32 = 0x3586_37bd;

/// What is known of a triangle at the centre of one pixel: its doubled area
/// on the screen, which is the denominator of the weights, the three
/// barycentric weights of the centre, and the depth interpolated there.
#[derive(Clone, Copy, Debug, PartialEq, Eq, Structural)]
pub struct Sample {
    pub area: Scalar,
    pub w0: Scalar,
    pub w1: Scalar,
    pub w2: Scalar,
    pub depth: Scalar,
}

impl Sample {
    /// The triangle is not degenerate and none of the weights is negative.
    pub open spec fn covers(self) -> bool {
        &&& !self.area.absolute().below(Scalar { bits: AREA_EPSILON_BITS })
        &&& Scalar::zero().at_most(self.w0)
        &&& Scalar::zero().at_most(self.w1)
        &&& Scalar::zero().at_most(self.w2)
    }

    /// Tells whether the pixel lies inside the triangle.
    pub fn is_covering(&self) -> (r: bool)
        ensures
            r == self.covers(),
    {
        let zero = Scalar { bits: 0 };
        !self.area.abs().lt(Scalar { bits: AREA_EPSILON_BITS }) && self.w0.ge(zero) && self.w1.ge(
            zero,
        ) && self.w2.ge(zero)
    }
}

/// What the projection and the light make of a triangle: a corner that does
/// not reach the screen is `None`, and `level` is the brightness, of which
/// levels 0 to 9 have a glyph of their own.
#[derive(Clone, Copy, Debug, PartialEq, Eq)]
pub struct Shading {
    pub corners: [Option<ScreenPoint>; 3],
    pub level: usize,
}

/// One pixel of the frame.
#[derive(Clone, Copy, Debug, PartialEq, Eq, Structural)]
pub struct Cell {
    pub depth: Scalar,
    pub glyph: char,
}

impl Cell {
    /// A pixel that nothing covers: blank, at infinite depth.
    pub open spec fn empty() -> Cell {
        Cell { depth: Scalar::infinity(), glyph: ' ' }
    }

    /// The pixel after something of depth `depth` and glyph `glyph` was
    /// drawn onto it: what is strictly nearer replaces what was there, and
    /// nothing else does.
    pub open spec fn under(self, depth: Scalar, glyph: char) -> Cell {
        if depth.below(self.depth) {
            Cell { depth, glyph }
        } else {
            self
        }
    }

    /// The pixel after a triangle of glyph `glyph` was sampled at it.
    pub open spec fn shaded(self, sample: Sample, glyph: char) -> Cell {
        if sample.covers() {
            self.under(sample.depth, glyph)
        } else {
            self
        }
    }
}

/// Of two things drawn onto one pixel, the nearer one shows, in whatever
/// order they are drawn, if it is nearer than what the pixel held before.
pub proof fn lemma_nearer_shows(
    cell: Cell,
    near: Scalar,
    near_glyph: char,
    far: Scalar,
    far_glyph: char,
)
    requires
        near.below(far),
        near.below(cell.depth),
    ensures
        cell.under(near, near_glyph).under(far, far_glyph) == (Cell {
            depth: near,
            glyph: near_glyph,
        }),
        cell.under(far, far_glyph).under(near, near_glyph) == (Cell {
            depth: near,
            glyph: near_glyph,
        }),
{
}

/// Of two things drawn at one depth onto one pixel, the first one stays.
pub proof fn lemma_tie_keeps_first(cell: Cell, depth: Scalar, first: char, second: char)
    requires
        depth.below(cell.depth),
    ensures
        cell.under(depth, first).under(depth, second) == (Cell { depth, glyph: first }),
{
}

/// Drawing brings a pixel nearer or leaves it as it is: its depth never
/// grows.
pub proof fn lemma_depth_never_grows(cell: Cell, depth: Scalar, glyph: char)
    ensures
        cell.under(depth, glyph) == cell || cell.under(depth, glyph).depth.below(cell.depth),
{
}

/// An empty pixel takes whatever is drawn onto it at a depth that is a
/// number and not infinite.
pub proof fn lemma_empty_takes(depth: Scalar, glyph: char)
    requires
        depth.finite(),
    ensures
        Cell::empty().under(depth, glyph) == (Cell { depth, glyph }),
{
}

} // verus!
