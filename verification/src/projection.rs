//! The decisions of the projection: which points reach the screen.
use vstd::prelude::*;
use vstd::arithmetic::power2::{lemma2_to64, lemma_pow2_adds, pow2};
use crate::value::lemma_rank_orders_values;
use crate::bounds::ScreenPoint;
use crate::scalar::{Scalar, ONE_BITS, SIGN_BIT};

verus! {

/// How depth is mapped to the screen.
#[derive(Clone, Copy, Debug, PartialEq, Eq, Structural)]
pub enum ProjectionMode {
    Orthographic,
    Perspective,
}

/// The pattern of `1e-6`: a clip-space depth closer to zero is not divided by.
pub const DEPTH_EPSILON_BITS: u32 = 0x3586_37bd;

pub open spec fn depth_epsilon() -> Scalar {
    Scalar { bits: DEPTH_EPSILON_BITS }
}

pub open spec fn minus_one() -> Scalar {
    Scalar { bits: (SIGN_BIT + ONE_BITS) as u32 }
}

/// A clip-space depth can be divided by unless its absolute value is below
/// the epsilon.
pub open spec fn divisible(depth: Scalar) -> bool {
    !depth.absolute().below(depth_epsilon())
}

/// A normalised coordinate is clipped when it is below `-1` or above `1`.
pub open spec fn clipped(coordinate: Scalar) -> bool {
    coordinate.below(minus_one()) || Scalar::one().below(coordinate)
}

/// Tells whether a point of clip-space depth `depth` can be projected.
pub fn accepts_depth(depth: Scalar) -> (r: bool)
    ensures
        r == divisible(depth),
        !depth.nan() ==> (r <==> depth_epsilon().at_most(depth.absolute())),
{
    !depth.abs().lt(Scalar { bits: DEPTH_EPSILON_BITS })
}

/// Tells whether normalised device coordinates lie on the screen: both in
/// the closed range from `-1` to `1`.
pub fn accepts_ndc(x: Scalar, y: Scalar) -> (r: bool)
    ensures
        r == (!clipped(x) && !clipped(y)),
        !x.nan() && !y.nan() ==> (r <==> minus_one().at_most(x) && x.at_most(Scalar::one())
            && minus_one().at_most(y) && y.at_most(Scalar::one())),
{
    let low = Scalar { bits: SIGN_BIT + ONE_BITS };
    let high = Scalar { bits: ONE_BITS };
    !(x.lt(low) || high.lt(x) || y.lt(low) || high.lt(y))
}

/// What the projection makes of a point, given its clip-space depth, its
/// normalised device coordinates and the pixel coordinates that belong to
/// them: the point on the screen, with the depth as it is, unless the depth
/// cannot be divided by or a coordinate is clipped.
pub fn screen_point(depth: Scalar, ndc_x: Scalar, ndc_y: Scalar, x: Scalar, y: Scalar) -> (r:
    Option<ScreenPoint>)
    ensures
        r == if divisible(depth) && !clipped(ndc_x) && !clipped(ndc_y) {
            Some(ScreenPoint { x, y, depth })
        } else {
            None
        },
{
    if accepts_depth(depth) && accepts_ndc(ndc_x, ndc_y) {
        Some(ScreenPoint { x, y, depth })
    } else {
        None
    }
}

/// The pattern of `1.0` stands for the number one: 2^149 units of 2^-149.
pub proof fn lemma_one_is_one()
    ensures
        Scalar::one().units() == pow2(149),
        minus_one().units() == -(pow2(149) as int),
{
    let one = Scalar::one();
    lemma2_to64();
    lemma_pow2_adds(23, 126);
    assert(one.magnitude() == 0x3f80_0000);
    assert(one.exponent_field() == 127 && one.fraction_field() == 0);
    assert(minus_one().magnitude() == 0x3f80_0000);
    assert(minus_one().exponent_field() == 127 && minus_one().fraction_field() == 0);
}

/// A finite coordinate is clipped exactly where the number that it stands
/// for lies outside the closed range from -1 to 1.
pub proof fn lemma_clipping_is_by_value(coordinate: Scalar)
    requires
        coordinate.finite(),
    ensures
        !clipped(coordinate) <==> -(pow2(149) as int) <= coordinate.units() <= pow2(149),
{
    lemma_one_is_one();
    lemma_rank_orders_values(coordinate, minus_one());
    lemma_rank_orders_values(Scalar::one(), coordinate);
}

} // verus!
