//! Real numbers as carried by the settings and the canvas.
//!
//! A value is the bit pattern of a binary64 number. It is stored, copied and
//! compared here; arithmetic on it is left to the caller.
use vstd::prelude::*;

verus! {

/// 0.0
pub const ZERO: u64 = 0;

/// 2.0
pub const TWO: u64 = 0x4000_0000_0000_0000;

/// 8.0
pub const EIGHT: u64 = 0x4020_0000_0000_0000;

/// 100.0
pub const HUNDRED: u64 = 0x4059_0000_0000_0000;

/// 150.0
pub const HUNDRED_AND_FIFTY: u64 = 0x4062_c000_0000_0000;

const SIGN: u64 = 0x8000_0000_0000_0000;

const INFINITY: u64 = 0x7ff0_0000_0000_0000;

#[derive(Debug, Clone, Copy, PartialEq, Eq, Structural)]
pub struct Real {
    pub bits: u64,
}

impl Real {
    /// The bits without the sign.
    pub open spec fn magnitude(self) -> int {
        if self.bits >= 0x8000_0000_0000_0000 {
            self.bits - 0x8000_0000_0000_0000
        } else {
            self.bits as int
        }
    }

    /// Whether the bits stand for a number: those above infinity do not.
    pub open spec fn is_number(self) -> bool {
        self.magnitude() <= 0x7ff0_0000_0000_0000
    }

    /// Where a number stands among all others; both zeros stand at 0.
    pub open spec fn rank(self) -> int {
        if self.bits >= 0x8000_0000_0000_0000 {
            -self.magnitude()
        } else {
            self.magnitude()
        }
    }

    /// The meaning of `self >= other`, which is false where either is no number.
    pub open spec fn is_at_least(self, other: Real) -> bool {
        self.is_number() && other.is_number() && self.rank() >= other.rank()
    }

    pub fn new(bits: u64) -> (result: Real)
        ensures
            result.bits == bits,
    {
        Real { bits }
    }

    /// Whether `self >= other`.
    pub fn at_least(self, other: Real) -> (result: bool)
        ensures
            result == self.is_at_least(other),
    {
        let left_negative = self.bits >= SIGN;
        let right_negative = other.bits >= SIGN;
        let left: u64 = if left_negative {
            self.bits - SIGN
        } else {
            self.bits
        };
        let right: u64 = if right_negative {
            other.bits - SIGN
        } else {
            other.bits
        };
        if left > INFINITY || right > INFINITY {
            false
        } else if left_negative && right_negative {
            left <= right
        } else if left_negative {
            left == 0 && right == 0
        } else if right_negative {
            true
        } else {
            left >= right
        }
    }
}

/// Of two numbers each is at least the other or the other way round, and both
/// hold only where they stand at the same place.
pub proof fn numbers_are_ordered(left: Real, right: Real)
    requires
        left.is_number(),
        right.is_number(),
    ensures
        left.is_at_least(right) || right.is_at_least(left),
        left.is_at_least(right) && right.is_at_least(left) <==> left.rank() == right.rank(),
{
}

/// Numbers without a sign grow with their bits, those with one shrink with them, all
/// of the latter lie below all of the former, and both zeros are alike. What is no
/// number is at least nothing, and nothing is at least it.
pub proof fn bits_tell_the_order(left: Real, right: Real)
    ensures
        left.bits <= 0x7ff0_0000_0000_0000 && right.bits <= 0x7ff0_0000_0000_0000
            ==> left.is_at_least(right) == (left.bits >= right.bits),
        0x8000_0000_0000_0000 <= left.bits <= 0xfff0_0000_0000_0000 && 0x8000_0000_0000_0000
            <= right.bits <= 0xfff0_0000_0000_0000 ==> left.is_at_least(right) == (left.bits
            <= right.bits),
        left.bits <= 0x7ff0_0000_0000_0000 && 0x8000_0000_0000_0000 <= right.bits
            <= 0xfff0_0000_0000_0000 ==> left.is_at_least(right),
        0x8000_0000_0000_0000 < left.bits <= 0xfff0_0000_0000_0000 && right.bits
            <= 0x7ff0_0000_0000_0000 ==> !left.is_at_least(right),
        left.bits == 0x8000_0000_0000_0000 && right.bits == 0 ==> left.is_at_least(right)
            && right.is_at_least(left),
        left.bits > 0xfff0_0000_0000_0000 || 0x7ff0_0000_0000_0000 < left.bits
            < 0x8000_0000_0000_0000 ==> !left.is_at_least(right) && !right.is_at_least(left),
{
}

}
