//! What a bit pattern is worth, and the whole numbers next to it.
use vstd::prelude::*;
use vstd::arithmetic::div_mod::{
    lemma_basic_div, lemma_div_denominator, lemma_div_multiples_vanish,
    lemma_fundamental_div_mod, lemma_fundamental_div_mod_converse, lemma_mod_multiples_basic,
    lemma_small_mod, lemma_truncate_middle,
};
use vstd::arithmetic::power2::{
    lemma2_to64, lemma_pow2_adds, lemma_pow2_pos, lemma_pow2_strictly_increases, pow2,
};
use crate::scalar::{Scalar, HIDDEN_BIT, INFINITY_BITS};

verus! {

impl Scalar {
    /// The eight bits below the sign.
    pub open spec fn exponent_field(self) -> int {
        self.magnitude() / 0x80_0000
    }

    /// The lowest twenty-three bits.
    pub open spec fn fraction_field(self) -> int {
        self.magnitude() % 0x80_0000
    }

    /// The fraction, with the hidden leading one of a normal number.
    pub open spec fn significand(self) -> int {
        if self.exponent_field() == 0 {
            self.fraction_field()
        } else {
            0x80_0000 + self.fraction_field()
        }
    }

    /// The power of two by which the significand is multiplied, counted
    /// from that of the subnormal numbers.
    pub open spec fn scale(self) -> nat {
        if self.exponent_field() == 0 {
            0
        } else {
            (self.exponent_field() - 1) as nat
        }
    }

    /// The absolute value of a finite number, in units of 2^-149: every
    /// finite number is a whole multiple of that unit.
    pub open spec fn size(self) -> nat {
        (self.significand() * pow2(self.scale())) as nat
    }

    /// The value of a finite number, in units of 2^-149.
    pub open spec fn units(self) -> int {
        if self.negative() {
            -(self.size() as int)
        } else {
            self.size() as int
        }
    }

    /// The greatest whole number that is not above a finite number.
    pub open spec fn floor(self) -> int {
        self.units() / (pow2(149) as int)
    }

    /// The least whole number that is not below a finite number.
    pub open spec fn ceil(self) -> int {
        -((-self.units()) / (pow2(149) as int))
    }

    /// The floor as a conversion to `i32` gives it: 0 for a NaN, the
    /// nearest end of the range for what lies outside it.
    pub open spec fn floor_i32(self) -> int {
        if self.nan() {
            0
        } else if self.infinite() {
            if self.negative() {
                i32::MIN as int
            } else {
                i32::MAX as int
            }
        } else if self.floor() < i32::MIN {
            i32::MIN as int
        } else if self.floor() > i32::MAX {
            i32::MAX as int
        } else {
            self.floor()
        }
    }

    /// The ceiling as a conversion to `i32` gives it.
    pub open spec fn ceil_i32(self) -> int {
        if self.nan() {
            0
        } else if self.infinite() {
            if self.negative() {
                i32::MIN as int
            } else {
                i32::MAX as int
            }
        } else if self.ceil() < i32::MIN {
            i32::MIN as int
        } else if self.ceil() > i32::MAX {
            i32::MAX as int
        } else {
            self.ceil()
        }
    }
}

proof fn lemma_pow2_grows(a: nat, b: nat)
    requires
        a <= b,
    ensures
        0 < pow2(a) <= pow2(b),
{
    lemma_pow2_pos(a);
    if a < b {
        lemma_pow2_strictly_increases(a, b);
    }
}

/// Among finite numbers the size grows with the magnitude of the pattern.
pub proof fn lemma_size_grows(a: Scalar, b: Scalar)
    requires
        a.magnitude() < b.magnitude(),
    ensures
        a.size() < b.size(),
{
    let sa = a.significand();
    let sb = b.significand();
    let pa = pow2(a.scale()) as int;
    let pb = pow2(b.scale()) as int;
    lemma_pow2_pos(a.scale());
    lemma_pow2_pos(b.scale());
    assert(0 <= sa < 0x100_0000 && 0 <= sb < 0x100_0000);
    if a.exponent_field() == b.exponent_field() {
        assert(sa < sb);
        assert(sa * pa < sb * pa) by (nonlinear_arith)
            requires
                0 <= sa < sb,
                0 < pa,
        ;
    } else {
        assert(a.exponent_field() < b.exponent_field());
        assert(sb >= 0x80_0000);
        assert(0x80_0000 * pb <= sb * pb) by (nonlinear_arith)
            requires
                0x80_0000 <= sb,
                0 < pb,
        ;
        if a.exponent_field() == 0 {
            lemma2_to64();
            assert(pa == 1);
            assert(sa < 0x80_0000);
            assert(0x80_0000 * 1 <= 0x80_0000 * pb) by (nonlinear_arith)
                requires
                    1 <= pb,
            ;
        } else {
            let next = pow2(a.scale() + 1) as int;
            lemma_pow2_adds(a.scale(), 1);
            lemma2_to64();
            assert(next == pa * 2);
            lemma_pow2_grows(a.scale() + 1, b.scale());
            assert(sa * pa < 0x80_0000 * next) by (nonlinear_arith)
                requires
                    0 <= sa < 0x100_0000,
                    0 < pa,
                    next == pa * 2,
            ;
            assert(0x80_0000 * next <= 0x80_0000 * pb) by (nonlinear_arith)
                requires
                    next <= pb,
            ;
        }
    }
}

/// The order of the patterns is the order of the numbers they stand for:
/// of two finite numbers the one of lower rank is the lesser, and numbers
/// of one rank are equal.
pub proof fn lemma_rank_orders_values(a: Scalar, b: Scalar)
    requires
        a.finite(),
        b.finite(),
    ensures
        a.below(b) <==> a.units() < b.units(),
        a.at_most(b) <==> a.units() <= b.units(),
        a.equals(b) <==> a.units() == b.units(),
{
    let zero = Scalar { bits: 0 };
    lemma2_to64();
    assert(zero.size() == 0) by {
        assert(zero.significand() == 0);
        assert(0 * pow2(zero.scale()) == 0);
    }
    if a.magnitude() > 0 {
        lemma_size_grows(zero, a);
    } else {
        assert(a.magnitude() == zero.magnitude());
        assert(a.size() == zero.size());
    }
    if b.magnitude() > 0 {
        lemma_size_grows(zero, b);
    } else {
        assert(b.magnitude() == zero.magnitude());
        assert(b.size() == zero.size());
    }
    if a.magnitude() < b.magnitude() {
        lemma_size_grows(a, b);
    } else if b.magnitude() < a.magnitude() {
        lemma_size_grows(b, a);
    } else {
        assert(a.size() == b.size());
    }
}

/// Halving a finite number halves its value where the half is a whole
/// number of units; where it is not, the result is the even one of the two
/// whole numbers of units next to the half.
pub proof fn lemma_half_rounds_to_even(x: Scalar)
    requires
        x.finite(),
    ensures
        x.halved().finite(),
        x.halved().negative() == x.negative(),
        x.units() % 2 == 0 ==> 2 * x.halved().units() == x.units(),
        x.units() % 2 != 0 ==> x.halved().units() % 2 == 0 && (2 * x.halved().units() == x.units()
            + 1 || 2 * x.halved().units() == x.units() - 1),
{
    let h = x.halved();
    let m = x.magnitude();
    lemma2_to64();
    if m >= 2 * HIDDEN_BIT {
        assert(h.magnitude() == m - HIDDEN_BIT);
        assert(h.exponent_field() == x.exponent_field() - 1);
        assert(h.fraction_field() == x.fraction_field());
        lemma_pow2_adds(h.scale(), 1);
        let s = x.significand();
        let p = pow2(h.scale()) as int;
        assert(s * (p * 2) == 2 * (s * p)) by (nonlinear_arith);
    } else {
        assert(x.scale() == 0 && h.scale() == 0);
        assert(x.significand() == m);
        assert(h.significand() == h.magnitude());
        assert(x.size() == m) by (nonlinear_arith)
            requires
                x.size() == m * pow2(0),
                pow2(0) == 1,
                m >= 0,
        ;
        assert(h.size() == h.magnitude()) by (nonlinear_arith)
            requires
                h.size() == h.magnitude() * pow2(0),
                pow2(0) == 1,
                h.magnitude() >= 0,
        ;
    }
}

fn power_of_two(exponent: u32) -> (r: u32)
    requires
        exponent <= 30,
    ensures
        r == pow2(exponent as nat),
{
    let mut r: u32 = 1;
    let mut i: u32 = 0;
    proof {
        lemma2_to64();
    }
    while i < exponent
        invariant
            i <= exponent <= 30,
            r == pow2(i as nat),
            r <= 0x4000_0000,
            i < 30 ==> r <= 0x2000_0000,
        decreases exponent - i,
    {
        proof {
            lemma_pow2_adds(i as nat, 1);
            lemma2_to64();
            if i + 1 < 30 {
                lemma_pow2_strictly_increases((i + 1) as nat, 30);
            }
        }
        r = r * 2;
        i += 1;
    }
    r
}

impl Scalar {
    /// The whole part of the absolute value of a number below 2^31, and
    /// whether the number is whole.
    fn whole_part(self) -> (r: (u32, bool))
        requires
            self.magnitude() < 158 * HIDDEN_BIT,
        ensures
            r.0 == self.size() / pow2(149),
            r.1 == (self.size() % pow2(149) == 0),
            r.0 < 0x8000_0000,
    {
        let m: u32 = self.magnitude_bits();
        let e: u32 = m / HIDDEN_BIT;
        let f: u32 = m % HIDDEN_BIT;
        let significand: u32 = if e == 0 {
            f
        } else {
            HIDDEN_BIT + f
        };
        let scale: u32 = if e == 0 {
            0
        } else {
            e - 1
        };
        let ghost unit = pow2(149) as int;
        let ghost s = significand as int;
        proof {
            lemma2_to64();
            lemma_pow2_pos(149);
            lemma_pow2_pos(scale as nat);
            assert(s == self.significand() && scale == self.scale());
        }
        if scale >= 149 {
            let factor = power_of_two(scale - 149);
            proof {
                let k = factor as int;
                lemma_pow2_adds((scale - 149) as nat, 149);
                lemma_pow2_grows((scale - 149) as nat, 7);
                assert(s * (k * unit) == (s * k) * unit) by (nonlinear_arith);
                assert(0 <= s * k < 0x100_0000 * 0x80) by (nonlinear_arith)
                    requires
                        0 <= s < 0x100_0000,
                        0 < k <= 0x80,
                ;
                lemma_div_multiples_vanish(s * k, unit);
                lemma_mod_multiples_basic(s * k, unit);
            }
            (significand * factor, true)
        } else {
            let shift: u32 = 149 - scale;
            let ghost low = pow2(scale as nat) as int;
            let ghost high = pow2(shift as nat) as int;
            proof {
                lemma_pow2_pos(shift as nat);
                lemma_pow2_adds(scale as nat, shift as nat);
                assert(unit == low * high);
                assert(low * s == s * low) by (nonlinear_arith);
                assert(0 <= s * low) by (nonlinear_arith)
                    requires
                        0 <= s,
                        0 < low,
                ;
                assert(self.size() == s * low);
                lemma_div_denominator(s * low, low, high);
                lemma_div_multiples_vanish(s, low);
                assert((s * low) / low == s);
                assert(self.size() / pow2(149) == s / high);
                lemma_truncate_middle(s, low, high);
                assert(self.size() % pow2(149) == low * (s % high));
                assert((low * (s % high) == 0) == (s % high == 0)) by (nonlinear_arith)
                    requires
                        0 < low,
                ;
            }
            if shift >= 24 {
                proof {
                    lemma_pow2_grows(24, shift as nat);
                    lemma_basic_div(s, high);
                    lemma_small_mod(s as nat, high as nat);
                }
                (0, significand == 0)
            } else {
                let divisor = power_of_two(shift);
                (significand / divisor, significand % divisor == 0)
            }
        }
    }

    /// `self.floor() as i32`: the greatest whole number that is not above
    /// the number, kept within the range of `i32`; 0 for a NaN.
    pub fn floor_to_i32(self) -> (r: i32)
        ensures
            r == self.floor_i32(),
    {
        if self.is_nan() {
            return 0;
        }
        let negative = self.is_sign_negative();
        if self.magnitude_bits() >= 158 * HIDDEN_BIT {
            proof {
                if self.finite() {
                    self.lemma_large();
                }
            }
            return if negative {
                i32::MIN
            } else {
                i32::MAX
            };
        }
        let (whole, exact) = self.whole_part();
        proof {
            self.lemma_negative_quotient();
        }
        if !negative {
            whole as i32
        } else if exact {
            -(whole as i32)
        } else {
            -(whole as i32) - 1
        }
    }

    /// `self.ceil() as i32`: the least whole number that is not below the
    /// number, kept within the range of `i32`; 0 for a NaN.
    pub fn ceil_to_i32(self) -> (r: i32)
        ensures
            r == self.ceil_i32(),
    {
        if self.is_nan() {
            return 0;
        }
        let negative = self.is_sign_negative();
        if self.magnitude_bits() >= 158 * HIDDEN_BIT {
            proof {
                if self.finite() {
                    self.lemma_large();
                }
            }
            return if negative {
                i32::MIN
            } else {
                i32::MAX
            };
        }
        let (whole, exact) = self.whole_part();
        proof {
            self.lemma_negative_quotient();
        }
        if negative {
            -(whole as i32)
        } else if exact || whole == i32::MAX as u32 {
            whole as i32
        } else {
            whole as i32 + 1
        }
    }

    /// A finite number whose exponent field is 158 or more is 2^31 or more
    /// in absolute value.
    proof fn lemma_large(self)
        requires
            self.finite(),
            self.magnitude() >= 158 * HIDDEN_BIT,
        ensures
            self.size() / pow2(149) >= 0x8000_0000,
            !self.negative() ==> self.floor() >= 0x8000_0000 && self.ceil() >= 0x8000_0000,
            self.negative() ==> self.floor() <= -0x8000_0000 && self.ceil() <= -0x8000_0000,
    {
        let unit = pow2(149) as int;
        let s = self.significand();
        let p = pow2(self.scale()) as int;
        let rest = pow2((self.scale() - 149) as nat) as int;
        lemma2_to64();
        lemma_pow2_pos(149);
        lemma_pow2_adds((self.scale() - 149) as nat, 149);
        lemma_pow2_grows(8, (self.scale() - 149) as nat);
        assert(s * (rest * unit) == (s * rest) * unit) by (nonlinear_arith);
        assert(s * rest >= 0x80_0000 * 0x100) by (nonlinear_arith)
            requires
                s >= 0x80_0000,
                rest >= 0x100,
        ;
        lemma_div_multiples_vanish(s * rest, unit);
        lemma_mod_multiples_basic(s * rest, unit);
        self.lemma_negative_quotient();
    }

    /// Floor and ceiling of a number, from the whole part of its absolute
    /// value.
    proof fn lemma_negative_quotient(self)
        ensures
            !self.negative() ==> self.floor() == self.size() / pow2(149),
            !self.negative() ==> self.ceil() == self.size() / pow2(149) + if self.size() % pow2(149)
                == 0 {
                0int
            } else {
                1int
            },
            self.negative() ==> self.ceil() == -(self.size() / pow2(149)),
            self.negative() ==> self.floor() == -(self.size() / pow2(149)) - if self.size() % pow2(
                149,
            ) == 0 {
                0int
            } else {
                1int
            },
    {
        let unit = pow2(149) as int;
        let n = self.size() as int;
        let q = n / unit;
        let r = n % unit;
        lemma_pow2_pos(149);
        lemma_fundamental_div_mod(n, unit);
        assert(n == unit * q + r);
        assert(0 <= r < unit);
        if r == 0 {
            assert(-n == (-q) * unit + 0) by (nonlinear_arith)
                requires
                    n == unit * q,
            ;
            lemma_fundamental_div_mod_converse(-n, unit, -q, 0);
        } else {
            assert(-n == (-q - 1) * unit + (unit - r)) by (nonlinear_arith)
                requires
                    n == unit * q + r,
            ;
            lemma_fundamental_div_mod_converse(-n, unit, -q - 1, unit - r);
        }
    }
}

} // verus!
