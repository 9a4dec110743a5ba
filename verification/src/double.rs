//! Double-precision numbers by their bits.
//!
//! Durations and percentages are measured in binary64. The library never does
//! arithmetic on them; it orders them, and the order of two such numbers can be
//! read off their bits.

use vstd::prelude::*;

verus! {

/// The bits of a binary64 number.
#[derive(Debug, Clone, Copy, PartialEq, Eq, Structural)]
pub struct Double {
    pub bits: u64,
}

/// The bit that holds the sign.
pub const SIGN_BIT: u64 = 0x8000_0000_0000_0000;

/// The bits of positive infinity.
pub const INFINITY_BITS: u64 = 0x7ff0_0000_0000_0000;

impl Double {
    /// Tells whether this is not a number.
    pub open spec fn is_nan(self) -> bool {
        self.bits % SIGN_BIT > INFINITY_BITS
    }

    /// A key that orders the numbers as binary64 does; both zeros have key 0. It
    /// means nothing for what is not a number.
    pub open spec fn rank(self) -> int {
        if self.bits < SIGN_BIT {
            self.bits as int
        } else {
            SIGN_BIT - self.bits
        }
    }

    /// `self <= other`: false as soon as either is not a number.
    pub open spec fn le_of(self, other: Double) -> bool {
        !self.is_nan() && !other.is_nan() && self.rank() <= other.rank()
    }

    /// The larger of two numbers; where only one is a number, that one.
    pub open spec fn max_of(self, other: Double) -> Double {
        if self.is_nan() || (!other.is_nan() && self.rank() < other.rank()) {
            other
        } else {
            self
        }
    }

    /// The smaller of two numbers; where only one is a number, that one.
    pub open spec fn min_of(self, other: Double) -> Double {
        if self.is_nan() || (!other.is_nan() && other.rank() < self.rank()) {
            other
        } else {
            self
        }
    }

    /// `self`, moved to the nearer end where it lies outside `low..=high`. What
    /// is not a number stays what it is.
    pub open spec fn clamp_of(self, low: Double, high: Double) -> Double {
        if self.is_nan() {
            self
        } else if self.rank() < low.rank() {
            low
        } else if self.rank() > high.rank() {
            high
        } else {
            self
        }
    }

    fn nan(self) -> (r: bool)
        ensures
            r == self.is_nan(),
    {
        self.bits % SIGN_BIT > INFINITY_BITS
    }

    fn key(self) -> (r: i128)
        ensures
            r == self.rank(),
    {
        if self.bits < SIGN_BIT {
            self.bits as i128
        } else {
            SIGN_BIT as i128 - self.bits as i128
        }
    }

    /// `self <= other`.
    pub fn at_most(self, other: Double) -> (r: bool)
        ensures
            r == self.le_of(other),
    {
        !self.nan() && !other.nan() && self.key() <= other.key()
    }

    /// The larger of two numbers.
    pub fn at_least(self, other: Double) -> (r: Double)
        ensures
            r == self.max_of(other),
    {
        if self.nan() || (!other.nan() && self.key() < other.key()) {
            other
        } else {
            self
        }
    }

    /// The smaller of two numbers.
    pub fn capped(self, other: Double) -> (r: Double)
        ensures
            r == self.min_of(other),
    {
        if self.nan() || (!other.nan() && other.key() < self.key()) {
            other
        } else {
            self
        }
    }

    /// Moves the number into `low..=high`.
    pub fn clamped(self, low: Double, high: Double) -> (r: Double)
        requires
            low.le_of(high),
        ensures
            r == self.clamp_of(low, high),
    {
        if self.nan() {
            self
        } else if self.key() < low.key() {
            low
        } else if self.key() > high.key() {
            high
        } else {
            self
        }
    }
}

/// The seconds that were read, or 0 if none could be.
pub open spec fn seconds_or_zero_of(read: Option<Double>) -> Double {
    match read {
        Some(d) => d,
        None => Double { bits: 0 },
    }
}

/// The seconds of a duration as they count: what was read of it, or 0 if it is
/// missing or cannot be read as a number.
pub fn seconds_or_zero(read: Option<Double>) -> (r: Double)
    ensures
        r == seconds_or_zero_of(read),
{
    match read {
        Some(d) => d,
        None => Double { bits: 0 },
    }
}

/// The larger of two numbers is one of them and no smaller than either; the smaller
/// is one of them and no larger than either.
pub proof fn law_larger_and_smaller(a: Double, b: Double)
    requires
        !a.is_nan(),
        !b.is_nan(),
    ensures
        a.max_of(b) == a || a.max_of(b) == b,
        a.max_of(b).rank() >= a.rank(),
        a.max_of(b).rank() >= b.rank(),
        a.min_of(b) == a || a.min_of(b) == b,
        a.min_of(b).rank() <= a.rank(),
        a.min_of(b).rank() <= b.rank(),
{
}

/// What is not a number gives way to what is.
pub proof fn law_numbers_win(a: Double, b: Double)
    requires
        a.is_nan(),
        !b.is_nan(),
    ensures
        a.max_of(b) == b,
        b.max_of(a) == b,
        a.min_of(b) == b,
        b.min_of(a) == b,
        !a.le_of(b),
        !b.le_of(a),
{
}

/// A number between two bounds is left where it is; one outside is moved to the
/// bound that it is beyond.
pub proof fn law_clamping(x: Double, low: Double, high: Double)
    requires
        !x.is_nan(),
        low.le_of(high),
    ensures
        low.le_of(x) && x.le_of(high) ==> x.clamp_of(low, high) == x,
        x.rank() < low.rank() ==> x.clamp_of(low, high) == low,
        x.rank() > high.rank() ==> x.clamp_of(low, high) == high,
{
}

/// What was read of a duration counts as it is, and nothing that was read as zero.
pub proof fn law_readings_count(read: Double)
    ensures
        seconds_or_zero_of(Some(read)) == read,
        seconds_or_zero_of(None) == (Double { bits: 0 }),
{
}

/// Whatever was read of a duration comes out as it is, and as zero if nothing was.
pub proof fn law_readings_come_out(read: Option<Double>, r: Double)
    requires
        call_ensures(seconds_or_zero, (read,), r),
    ensures
        read is Some ==> r == read->0,
        read is None ==> r == (Double { bits: 0 }),
{
}

} // verus!
