//! Numbers that only need to be compared, such as confidences and relevance scores.

use vstd::prelude::*;

verus! {

/// The bit that marks a negative number.
const SIGN: u64 = 0x8000_0000_0000_0000;

/// The bits of infinity; a larger magnitude is not a number.
const INFINITY: u64 = 0x7ff0_0000_0000_0000;

/// An IEEE 754 number of double precision, held as its bits.
#[derive(Debug, Clone, Copy)]
pub struct Score {
    pub bits: u64,
}

impl Score {
    /// The bits without the sign.
    pub open spec fn magnitude(self) -> int {
        if self.bits >= 0x8000_0000_0000_0000 {
            self.bits - 0x8000_0000_0000_0000
        } else {
            self.bits as int
        }
    }

    /// Whether the bits stand for no number.
    pub open spec fn is_nan(self) -> bool {
        self.magnitude() > 0x7ff0_0000_0000_0000
    }

    /// An integer by which numbers are ordered: the larger the number, the larger the integer.
    /// The two zeros share one.
    pub open spec fn order(self) -> int {
        if self.bits >= 0x8000_0000_0000_0000 {
            -self.magnitude()
        } else {
            self.magnitude()
        }
    }

    /// Whether this number is greater than or equal to the other. What is not a number is neither.
    pub open spec fn reaches(self, other: Score) -> bool {
        !self.is_nan() && !other.is_nan() && self.order() >= other.order()
    }

    /// Zero.
    pub fn zero() -> (score: Score)
        ensures
            score.order() == 0,
            !score.is_nan(),
            score.bits == 0,
    {
        Score { bits: 0 }
    }

    /// Minus one.
    pub fn minus_one() -> (score: Score)
        ensures
            score.bits == 0xbff0_0000_0000_0000,
            !score.is_nan(),
    {
        Score { bits: 0xbff0_0000_0000_0000 }
    }

    /// The integer by which the number is ordered.
    pub fn ordering_key(self) -> (key: i64)
        ensures
            key == self.order(),
    {
        if self.bits >= SIGN {
            -((self.bits - SIGN) as i64)
        } else {
            self.bits as i64
        }
    }

    /// Whether the bits stand for no number.
    pub fn not_a_number(self) -> (answer: bool)
        ensures
            answer == self.is_nan(),
    {
        if self.bits >= SIGN {
            self.bits - SIGN > INFINITY
        } else {
            self.bits > INFINITY
        }
    }

    /// Whether this number is greater than or equal to the other.
    pub fn at_least(self, other: Score) -> (answer: bool)
        ensures
            answer == self.reaches(other),
    {
        !self.not_a_number() && !other.not_a_number() && self.ordering_key()
            >= other.ordering_key()
    }
}

/// Of two numbers one reaches the other, and reaching carries over from one to the next.
pub proof fn reaching_is_an_order(a: Score, b: Score, c: Score)
    ensures
        !a.is_nan() && !b.is_nan() ==> a.reaches(b) || b.reaches(a),
        a.reaches(b) && b.reaches(c) ==> a.reaches(c),
        a.is_nan() ==> !a.reaches(b) && !b.reaches(a),
{
}

} // verus!
