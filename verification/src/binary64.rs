//! IEEE 754 double precision values, carried by their bit patterns.
//!
//! Ordering, sign and special values are decided here on the bits; arithmetic on the values is
//! left to the caller.
use vstd::arithmetic::power2::{lemma_pow2_pos, lemma_pow2_strictly_increases, lemma_pow2_unfold, pow2};
use vstd::prelude::*;

verus! {

/// The sign bit of a bit pattern.
pub const SIGN_BIT: u64 = 0x8000_0000_0000_0000;

/// The bit pattern of positive infinity. Patterns above it, sign aside, are not numbers.
pub const INFINITY_BITS: u64 = 0x7ff0_0000_0000_0000;

/// The bit pattern of one.
pub const ONE_BITS: u64 = 0x3ff0_0000_0000_0000;

/// Fraction patterns per exponent.
pub const FRACTIONS: u64 = 0x10_0000_0000_0000;

/// A double precision value by its bit pattern.
#[derive(Clone, Copy, Debug, PartialEq, Eq, Structural)]
pub struct Binary64 {
    pub bits: u64,
}

impl Binary64 {
    /// The bit pattern without its sign, as a number.
    pub open spec fn magnitude(self) -> int {
        if self.bits >= SIGN_BIT {
            self.bits - SIGN_BIT
        } else {
            self.bits as int
        }
    }

    /// This pattern stands for no number.
    pub open spec fn is_nan_spec(self) -> bool {
        self.magnitude() > INFINITY_BITS
    }

    /// Position among all values in ascending order; the two zeros share theirs.
    pub open spec fn rank(self) -> int {
        if self.bits >= SIGN_BIT {
            -self.magnitude()
        } else {
            self.magnitude()
        }
    }

    /// Numerically less; never for a pattern that stands for no number.
    pub open spec fn below_spec(self, other: Self) -> bool {
        !self.is_nan_spec() && !other.is_nan_spec() && self.rank() < other.rank()
    }

    /// Neither infinite nor without a numeric value.
    pub open spec fn is_finite(self) -> bool {
        self.magnitude() < INFINITY_BITS
    }

    /// The numeric value of a finite pattern, in units of the smallest positive value.
    pub open spec fn units(self) -> int {
        let exponent = self.magnitude() / FRACTIONS as int;
        let fraction = self.magnitude() % FRACTIONS as int;
        let size = if exponent == 0 {
            fraction
        } else {
            (FRACTIONS + fraction) * pow2((exponent - 1) as nat)
        };
        if self.bits >= SIGN_BIT {
            -size
        } else {
            size
        }
    }

    /// Whether this pattern stands for no number.
    pub fn is_nan(&self) -> (nan: bool)
        ensures
            nan == self.is_nan_spec(),
    {
        self.abs().bits > INFINITY_BITS
    }

    /// The value without its sign.
    pub fn abs(&self) -> (size: Self)
        ensures
            size.bits == self.magnitude(),
    {
        if self.bits >= SIGN_BIT {
            Binary64 { bits: self.bits - SIGN_BIT }
        } else {
            *self
        }
    }

    /// Whether this value is numerically less than `other`.
    pub fn below(&self, other: &Self) -> (less: bool)
        ensures
            less == self.below_spec(*other),
    {
        if self.is_nan() || other.is_nan() {
            return false;
        }
        let a: u64 = self.abs().bits;
        let b: u64 = other.abs().bits;
        if self.bits >= SIGN_BIT {
            if other.bits >= SIGN_BIT {
                b < a
            } else {
                a > 0 || b > 0
            }
        } else {
            if other.bits >= SIGN_BIT {
                false
            } else {
                a < b
            }
        }
    }

    /// This value limited to `low` from below and `high` from above. A pattern that stands for no
    /// number is returned as it is.
    pub fn clamp(&self, low: Self, high: Self) -> (limited: Self)
        requires
            !low.is_nan_spec(),
            !high.is_nan_spec(),
            low.rank() <= high.rank(),
        ensures
            limited == self.clamp_spec(low, high),
    {
        if self.below(&low) {
            low
        } else if high.below(self) {
            high
        } else {
            *self
        }
    }

    /// See [`Binary64::clamp`].
    pub open spec fn clamp_spec(self, low: Self, high: Self) -> Self {
        if self.below_spec(low) {
            low
        } else if high.below_spec(self) {
            high
        } else {
            self
        }
    }

    /// This value, or `floor` where that is numerically greater or this is not a number.
    pub fn at_least(&self, floor: Self) -> (raised: Self)
        ensures
            raised == self.at_least_spec(floor),
    {
        if self.is_nan() || self.below(&floor) {
            floor
        } else {
            *self
        }
    }

    /// See [`Binary64::at_least`].
    pub open spec fn at_least_spec(self, floor: Self) -> Self {
        if self.is_nan_spec() || self.below_spec(floor) {
            floor
        } else {
            self
        }
    }
}

proof fn lemma_units_grow_with_magnitude(a: Binary64, b: Binary64)
    requires
        a.bits < SIGN_BIT,
        b.bits < SIGN_BIT,
        a.bits < b.bits,
    ensures
        0 <= a.units() < b.units(),
{
    let f = FRACTIONS as int;
    let (ea, fa) = (a.magnitude() / f, a.magnitude() % f);
    let (eb, fb) = (b.magnitude() / f, b.magnitude() % f);
    assert(ea <= eb);
    assert(ea == eb ==> fa < fb);
    if eb > 0 {
        let pb = pow2((eb - 1) as nat) as int;
        lemma_pow2_pos((eb - 1) as nat);
        assert((f + fb) * pb >= f * pb) by (nonlinear_arith)
            requires
                fb >= 0,
                pb > 0,
        ;
        assert(f * pb >= f) by (nonlinear_arith)
            requires
                f > 0,
                pb > 0,
        ;
        if ea == eb {
            assert((f + fa) * pb < (f + fb) * pb) by (nonlinear_arith)
                requires
                    fa < fb,
                    pb > 0,
            ;
            assert((f + fa) * pb >= 0) by (nonlinear_arith)
                requires
                    fa >= 0,
                    f > 0,
                    pb > 0,
            ;
        } else if ea > 0 {
            let pa = pow2((ea - 1) as nat) as int;
            lemma_pow2_pos((ea - 1) as nat);
            lemma_pow2_unfold(ea as nat);
            if ea < eb - 1 {
                lemma_pow2_strictly_increases(ea as nat, (eb - 1) as nat);
            }
            assert(2 * pa <= pb);
            assert((f + fa) * pa < f * pb) by (nonlinear_arith)
                requires
                    0 <= fa < f,
                    pa > 0,
                    2 * pa <= pb,
            ;
            assert((f + fa) * pa >= 0) by (nonlinear_arith)
                requires
                    fa >= 0,
                    f > 0,
                    pa > 0,
            ;
        }
    }
}

/// Comparing two numbers by [`Binary64::rank`] is comparing their numeric values.
pub proof fn law_rank_orders_values(a: Binary64, b: Binary64)
    requires
        a.is_finite(),
        b.is_finite(),
    ensures
        a.rank() < b.rank() <==> a.units() < b.units(),
        a.rank() == b.rank() <==> a.units() == b.units(),
{
    let pa = Binary64 { bits: a.magnitude() as u64 };
    let pb = Binary64 { bits: b.magnitude() as u64 };
    let zero = Binary64 { bits: 0 };
    assert(pa.units() == a.units() || pa.units() == -a.units());
    assert(pb.units() == b.units() || pb.units() == -b.units());
    if pa.bits > 0 {
        lemma_units_grow_with_magnitude(zero, pa);
    }
    if pb.bits > 0 {
        lemma_units_grow_with_magnitude(zero, pb);
    }
    if pa.bits < pb.bits {
        lemma_units_grow_with_magnitude(pa, pb);
    }
    if pb.bits < pa.bits {
        lemma_units_grow_with_magnitude(pb, pa);
    }
}

/// Limiting a number yields a number between the limits, and leaves a number between the limits
/// as it is.
pub proof fn law_clamp_limits(value: Binary64, low: Binary64, high: Binary64)
    requires
        !value.is_nan_spec(),
        !low.is_nan_spec(),
        !high.is_nan_spec(),
        low.rank() <= high.rank(),
    ensures
        !value.clamp_spec(low, high).is_nan_spec(),
        low.rank() <= value.clamp_spec(low, high).rank() <= high.rank(),
        low.rank() <= value.rank() <= high.rank() ==> value.clamp_spec(low, high) == value,
{
}

/// Values stand in the order of their signs and sizes: what has no sign bit is not below zero, the
/// size of a value is the value without its sign, and changing the sign turns the order round.
pub proof fn law_rank_follows_sign_and_size(value: Binary64, negated: Binary64, size: Binary64)
    requires
        value.bits < 0x8000_0000_0000_0000,
        negated.bits == value.bits + 0x8000_0000_0000_0000,
        size.bits == negated.magnitude(),
    ensures
        size == value,
        value.magnitude() == value.bits,
        value.rank() == value.bits,
        negated.rank() == -value.bits,
        value.is_nan_spec() == (value.bits > 0x7ff0_0000_0000_0000),
        negated.is_nan_spec() == value.is_nan_spec(),
{
}

/// Numbers compare by their ranks, and what is no number compares with nothing.
pub proof fn law_numbers_compare_by_rank(a: Binary64, b: Binary64)
    ensures
        !a.is_nan_spec() && !b.is_nan_spec() ==> (a.below_spec(b) <==> a.rank() < b.rank()),
        a.is_nan_spec() || b.is_nan_spec() ==> !a.below_spec(b),
{
}

/// Raising a value to a floor that is a number yields a number not below the floor: the value
/// itself where it is one, and otherwise the floor.
pub proof fn law_floor_is_reached(value: Binary64, floor: Binary64)
    requires
        !floor.is_nan_spec(),
    ensures
        !value.at_least_spec(floor).is_nan_spec(),
        value.at_least_spec(floor).rank() >= floor.rank(),
        !value.is_nan_spec() && value.rank() >= floor.rank() ==> value.at_least_spec(floor)
            == value,
        value.is_nan_spec() || value.rank() < floor.rank() ==> value.at_least_spec(floor) == floor,
{
}

/// A number beyond a limit becomes that limit.
pub proof fn law_clamp_stops_at_the_limits(value: Binary64, low: Binary64, high: Binary64)
    requires
        !value.is_nan_spec(),
        !low.is_nan_spec(),
        !high.is_nan_spec(),
        low.rank() <= high.rank(),
    ensures
        value.rank() < low.rank() ==> value.clamp_spec(low, high) == low,
        value.rank() > high.rank() ==> value.clamp_spec(low, high) == high,
{
}

} // verus!
