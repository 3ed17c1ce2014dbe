//! Single-precision numbers held as their IEEE-754 bit patterns.
//!
//! The toolkit moves and compares coordinates, weights and key times but does
//! no arithmetic on them, so a bit pattern is all it needs. A pattern splits
//! into a sign (the top bit) and a magnitude (the other 31 bits); patterns
//! whose magnitude lies above that of infinity are not numbers.
use vstd::prelude::*;

verus! {

/// Weight of the sign bit.
pub const SIGN_BIT: u32 = 0x8000_0000;

/// Magnitude of an infinity: everything above it is not a number.
pub const INFINITY_BITS: u32 = 0x7F80_0000;

/// Bit pattern of one.
pub const ONE_BITS: u32 = 0x3F80_0000;

/// A single-precision number, held as its bit pattern.
#[derive(Clone, Copy, Debug, PartialEq, Eq, Hash, Structural)]
pub struct Scalar {
    pub bits: u32,
}

impl Scalar {
    /// Positive zero.
    #[verifier::allow_in_spec]
    pub fn zero() -> Scalar
        returns
            (Scalar { bits: 0 }),
    {
        Scalar { bits: 0 }
    }

    /// One.
    #[verifier::allow_in_spec]
    pub fn one() -> Scalar
        returns
            (Scalar { bits: ONE_BITS }),
    {
        Scalar { bits: ONE_BITS }
    }

    /// Positive infinity.
    #[verifier::allow_in_spec]
    pub fn infinity() -> Scalar
        returns
            (Scalar { bits: INFINITY_BITS }),
    {
        Scalar { bits: INFINITY_BITS }
    }

    /// Negative infinity.
    #[verifier::allow_in_spec]
    pub fn neg_infinity() -> Scalar
        returns
            (Scalar { bits: 0xFF80_0000 }),
    {
        Scalar { bits: 0xFF80_0000 }
    }

    /// Whether the sign bit is set.
    pub open spec fn negative(self) -> bool {
        self.bits >= SIGN_BIT
    }

    /// The pattern without its sign bit.
    pub open spec fn magnitude(self) -> int {
        if self.negative() {
            self.bits - SIGN_BIT
        } else {
            self.bits as int
        }
    }

    /// Whether the pattern is not a number.
    pub open spec fn nan(self) -> bool {
        self.magnitude() > INFINITY_BITS
    }

    /// Position of a number on the number line: numbers compare as their ranks
    /// do, and both zeros have rank zero.
    pub open spec fn rank(self) -> int {
        if self.negative() {
            -self.magnitude()
        } else {
            self.magnitude()
        }
    }

    /// Position in the total order of all patterns, which puts negative zero
    /// just below positive zero and the patterns that are not numbers at the
    /// two ends.
    pub open spec fn total_rank(self) -> int {
        if self.negative() {
            -self.magnitude() - 1
        } else {
            self.magnitude()
        }
    }

    /// Numeric order; false as soon as one side is not a number.
    pub open spec fn spec_lt(self, other: Scalar) -> bool {
        !self.nan() && !other.nan() && self.rank() < other.rank()
    }

    /// Numeric order; false as soon as one side is not a number.
    pub open spec fn spec_le(self, other: Scalar) -> bool {
        !self.nan() && !other.nan() && self.rank() <= other.rank()
    }

    /// The smaller of two numbers; the other one where one is not a number.
    pub open spec fn spec_min(self, other: Scalar) -> Scalar {
        if self.nan() || other.spec_lt(self) {
            other
        } else {
            self
        }
    }

    /// The larger of two numbers; the other one where one is not a number.
    pub open spec fn spec_max(self, other: Scalar) -> Scalar {
        if self.nan() || self.spec_lt(other) {
            other
        } else {
            self
        }
    }

    /// The scalar with the given bit pattern.
    pub fn from_bits(bits: u32) -> (r: Scalar)
        ensures
            r.bits == bits,
    {
        Scalar { bits }
    }

    /// The bit pattern.
    pub fn to_bits(self) -> (r: u32)
        ensures
            r == self.bits,
    {
        self.bits
    }

    fn magnitude_bits(self) -> (r: u32)
        ensures
            r == self.magnitude(),
    {
        if self.bits >= SIGN_BIT {
            self.bits - SIGN_BIT
        } else {
            self.bits
        }
    }

    /// Whether the pattern is not a number.
    pub fn is_nan(self) -> (r: bool)
        ensures
            r == self.nan(),
    {
        self.magnitude_bits() > INFINITY_BITS
    }

    fn rank_value(self) -> (r: i64)
        ensures
            r == self.rank(),
    {
        if self.bits >= SIGN_BIT {
            -(self.magnitude_bits() as i64)
        } else {
            self.bits as i64
        }
    }

    fn total_rank_value(self) -> (r: i64)
        ensures
            r == self.total_rank(),
    {
        if self.bits >= SIGN_BIT {
            -(self.magnitude_bits() as i64) - 1
        } else {
            self.bits as i64
        }
    }

    /// Numeric `self < other`.
    pub fn less(self, other: Scalar) -> (r: bool)
        ensures
            r == self.spec_lt(other),
    {
        !self.is_nan() && !other.is_nan() && self.rank_value() < other.rank_value()
    }

    /// Numeric `self <= other`.
    pub fn at_most(self, other: Scalar) -> (r: bool)
        ensures
            r == self.spec_le(other),
    {
        !self.is_nan() && !other.is_nan() && self.rank_value() <= other.rank_value()
    }

    /// Numeric `self > 0`.
    pub fn is_positive(self) -> (r: bool)
        ensures
            r == Scalar::zero().spec_lt(self),
    {
        Scalar::zero().less(self)
    }

    /// Strictly below in the total order of all patterns.
    pub fn total_less(self, other: Scalar) -> (r: bool)
        ensures
            r == (self.total_rank() < other.total_rank()),
    {
        self.total_rank_value() < other.total_rank_value()
    }

    /// The smaller of two numbers; the other one where one is not a number.
    pub fn smaller(self, other: Scalar) -> (r: Scalar)
        ensures
            r == self.spec_min(other),
    {
        if self.is_nan() || other.less(self) {
            other
        } else {
            self
        }
    }

    /// The larger of two numbers; the other one where one is not a number.
    pub fn larger(self, other: Scalar) -> (r: Scalar)
        ensures
            r == self.spec_max(other),
    {
        if self.is_nan() || self.less(other) {
            other
        } else {
            self
        }
    }

    /// The number with the opposite sign.
    pub fn negated(self) -> (r: Scalar)
        ensures
            r.magnitude() == self.magnitude(),
            r.negative() == !self.negative(),
    {
        if self.bits >= SIGN_BIT {
            Scalar { bits: self.bits - SIGN_BIT }
        } else {
            Scalar { bits: self.bits + SIGN_BIT }
        }
    }

    /// The number without its sign.
    pub fn abs(self) -> (r: Scalar)
        ensures
            r.bits == self.magnitude(),
    {
        Scalar { bits: self.magnitude_bits() }
    }
}

/// Whether `r` is the number of a range that lies nearest to `x`: it is in the
/// range, no other number of the range lies between it and `x`, and it is `x`
/// itself where `x` is in the range.
pub open spec fn is_nearest(r: Scalar, x: Scalar, min: Scalar, max: Scalar) -> bool {
    &&& min.spec_le(r) && r.spec_le(max)
    &&& forall|y: Scalar|
        #![trigger y.rank()]
        min.spec_le(y) && y.spec_le(max) ==> !(x.spec_lt(y) && y.spec_lt(r)) && !(r.spec_lt(y)
            && y.spec_lt(x))
    &&& min.spec_le(x) && x.spec_le(max) ==> r == x
    &&& x.spec_lt(min) ==> r == min
    &&& max.spec_lt(x) ==> r == max
}

/// Numbers compare by sign and magnitude: a negative one lies below every
/// positive one, of two positive ones the one with the larger magnitude is
/// larger, and of two negative ones the one with the smaller magnitude. Only the
/// two zeros are equal without being the same.
pub proof fn numbers_compare_by_sign_and_magnitude(a: Scalar, b: Scalar)
    requires
        a.bits % 0x8000_0000 <= 0x7F80_0000,
        b.bits % 0x8000_0000 <= 0x7F80_0000,
    ensures
        a.bits < 0x8000_0000 && b.bits < 0x8000_0000 ==> (a.spec_lt(b) <==> a.bits < b.bits),
        a.bits >= 0x8000_0000 && b.bits >= 0x8000_0000 ==> (a.spec_lt(b) <==> a.bits > b.bits),
        a.bits > 0x8000_0000 && b.bits < 0x8000_0000 ==> a.spec_lt(b) && !b.spec_lt(a),
        a.spec_le(b) <==> !b.spec_lt(a),
        a.spec_le(b) && b.spec_le(a) <==> a == b || a.bits % 0x8000_0000 == 0 && b.bits
            % 0x8000_0000 == 0,
{
}

/// What is not a number compares with nothing.
pub proof fn non_numbers_do_not_compare(a: Scalar, b: Scalar)
    requires
        a.bits % 0x8000_0000 > 0x7F80_0000 || b.bits % 0x8000_0000 > 0x7F80_0000,
    ensures
        !a.spec_lt(b) && !a.spec_le(b),
{
}

/// The smaller and the larger of two numbers are these two, in order; where one
/// is not a number the other one is taken.
pub proof fn smaller_and_larger_are_the_two(a: Scalar, b: Scalar)
    ensures
        !a.nan() && !b.nan() ==> a.spec_min(b).spec_le(a.spec_max(b)) && (a.spec_min(b) == a
            && a.spec_max(b) == b || a.spec_min(b) == b && a.spec_max(b) == a || a.spec_le(b)
            && b.spec_le(a)),
        a.nan() ==> a.spec_min(b) == b && a.spec_max(b) == b,
        b.nan() && !a.nan() ==> a.spec_min(b) == a && a.spec_max(b) == a,
{
}

/// The total order separates any two different patterns.
pub proof fn total_order_separates(a: Scalar, b: Scalar)
    ensures
        a.total_rank() == b.total_rank() <==> a == b,
{
}

/// On numbers, the total order refines the numeric order.
pub proof fn total_order_refines_numeric_order(a: Scalar, b: Scalar)
    requires
        a.spec_lt(b),
    ensures
        a.total_rank() < b.total_rank(),
{
}

} // verus!
