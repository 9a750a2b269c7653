//! Measured numbers, held by their IEEE 754 binary64 bit pattern.

use vstd::prelude::*;

verus! {

/// The weight of the sign bit.
pub const SIGN_WEIGHT: u64 = 0x8000_0000_0000_0000;

/// The bit pattern of positive infinity.
pub const INFINITY_BITS: u64 = 0x7FF0_0000_0000_0000;

/// The bit pattern of 9999, which providers send in place of a missing number.
pub const SENTINEL_BITS: u64 = 0x40C3_8780_0000_0000;

/// A measured number.
#[derive(Clone, Copy, Debug, PartialEq, Eq, Structural)]
pub struct Reading {
    /// The binary64 bit pattern of the number.
    pub bits: u64,
}

impl View for Reading {
    type V = Reading;

    open spec fn view(&self) -> Reading {
        *self
    }
}

impl Reading {
    /// The distance from zero in representable steps.
    pub open spec fn magnitude(self) -> int {
        if self.bits >= SIGN_WEIGHT {
            self.bits - SIGN_WEIGHT
        } else {
            self.bits as int
        }
    }

    /// Not a number.
    pub open spec fn nan(self) -> bool {
        self.magnitude() > INFINITY_BITS
    }

    /// Neither infinite nor not-a-number.
    pub open spec fn finite(self) -> bool {
        self.magnitude() < INFINITY_BITS
    }

    /// Numbers compare as their ranks do; the two zeros have rank zero.
    pub open spec fn rank(self) -> int {
        if self.bits >= SIGN_WEIGHT {
            -self.magnitude()
        } else {
            self.magnitude()
        }
    }

    /// The number that stands for a missing one.
    pub open spec fn sentinel(self) -> bool {
        self.bits == SENTINEL_BITS
    }

    /// Whether this is neither infinite nor not-a-number.
    pub fn is_finite(self) -> (r: bool)
        ensures
            r == self.finite(),
    {
        if self.bits >= SIGN_WEIGHT {
            self.bits - SIGN_WEIGHT < INFINITY_BITS
        } else {
            self.bits < INFINITY_BITS
        }
    }

    /// Whether this is not a number.
    pub fn is_nan(self) -> (r: bool)
        ensures
            r == self.nan(),
    {
        if self.bits >= SIGN_WEIGHT {
            self.bits - SIGN_WEIGHT > INFINITY_BITS
        } else {
            self.bits > INFINITY_BITS
        }
    }

    /// Whether this stands for a missing number.
    pub fn is_sentinel(self) -> (r: bool)
        ensures
            r == self.sentinel(),
    {
        self.bits == SENTINEL_BITS
    }

    /// Whether this number is below the other one.
    pub fn is_below(self, other: Reading) -> (r: bool)
        ensures
            r == (self.rank() < other.rank()),
    {
        if self.bits >= SIGN_WEIGHT {
            if other.bits >= SIGN_WEIGHT {
                other.bits < self.bits
            } else {
                self.bits > SIGN_WEIGHT || other.bits > 0
            }
        } else if other.bits >= SIGN_WEIGHT {
            false
        } else {
            self.bits < other.bits
        }
    }
}

/// The greater of two numbers. Where one is not a number it is the other one;
/// of two equal numbers it is the first.
pub open spec fn greater(a: Reading, b: Reading) -> Reading {
    if a.nan() {
        b
    } else if b.nan() {
        a
    } else if a.rank() < b.rank() {
        b
    } else {
        a
    }
}

/// The lesser of two numbers. Where one is not a number it is the other one;
/// of two equal numbers it is the first.
pub open spec fn lesser(a: Reading, b: Reading) -> Reading {
    if a.nan() {
        b
    } else if b.nan() {
        a
    } else if b.rank() < a.rank() {
        b
    } else {
        a
    }
}

/// The greater of two numbers.
pub fn max_reading(a: Reading, b: Reading) -> (r: Reading)
    ensures
        r == greater(a, b),
{
    if a.is_nan() {
        b
    } else if b.is_nan() {
        a
    } else if a.is_below(b) {
        b
    } else {
        a
    }
}

/// The lesser of two numbers.
pub fn min_reading(a: Reading, b: Reading) -> (r: Reading)
    ensures
        r == lesser(a, b),
{
    if a.is_nan() {
        b
    } else if b.is_nan() {
        a
    } else if b.is_below(a) {
        b
    } else {
        a
    }
}

/// Numbers are ranked by their bits: positive ones as their bits are, negative ones the other
/// way round and below the positive ones, and both zeros alike.
pub proof fn ranks_order_numbers(a: Reading, b: Reading)
    ensures
        a.bits < 0x8000_0000_0000_0000 && b.bits < 0x8000_0000_0000_0000 ==> (a.rank() < b.rank()
            <==> a.bits < b.bits),
        a.bits >= 0x8000_0000_0000_0000 && b.bits >= 0x8000_0000_0000_0000 ==> (a.rank()
            < b.rank() <==> b.bits < a.bits),
        a.bits > 0x8000_0000_0000_0000 && b.bits < 0x8000_0000_0000_0000 ==> a.rank() < b.rank(),
        a.bits == 0x8000_0000_0000_0000 && b.bits == 0 ==> a.rank() == b.rank(),
{
}

/// What is a number and what is finite is told by the exponent's bits, whatever the sign.
pub proof fn numbers_are_told_by_their_bits(a: Reading)
    ensures
        a.bits <= 0x7FF0_0000_0000_0000 ==> !a.nan(),
        0x8000_0000_0000_0000 <= a.bits <= 0xFFF0_0000_0000_0000 ==> !a.nan(),
        0x7FF0_0000_0000_0000 < a.bits < 0x8000_0000_0000_0000 ==> a.nan(),
        0xFFF0_0000_0000_0000 < a.bits ==> a.nan(),
        a.finite() <==> !a.nan() && a.bits != 0x7FF0_0000_0000_0000 && a.bits
            != 0xFFF0_0000_0000_0000,
        a.sentinel() <==> a.bits == 0x40C3_8780_0000_0000,
{
}

/// The greater of two numbers is one of them and not below the other; what is no number
/// gives way.
pub proof fn the_greater_is_not_exceeded(a: Reading, b: Reading)
    ensures
        greater(a, b) == a || greater(a, b) == b,
        !a.nan() && !b.nan() ==> greater(a, b).rank() >= a.rank() && greater(a, b).rank()
            >= b.rank(),
        a.nan() ==> greater(a, b) == b,
        b.nan() && !a.nan() ==> greater(a, b) == a,
        !a.nan() && a.rank() == b.rank() ==> greater(a, b) == a,
{
}

/// The lesser of two numbers is one of them and not above the other; what is no number gives
/// way.
pub proof fn the_lesser_is_not_undercut(a: Reading, b: Reading)
    ensures
        lesser(a, b) == a || lesser(a, b) == b,
        !a.nan() && !b.nan() ==> lesser(a, b).rank() <= a.rank() && lesser(a, b).rank()
            <= b.rank(),
        a.nan() ==> lesser(a, b) == b,
        b.nan() && !a.nan() ==> lesser(a, b) == a,
        !a.nan() && a.rank() == b.rank() ==> lesser(a, b) == a,
{
}

} // verus!
