use vstd::prelude::*;

verus! {

/// Sign bit of an IEEE-754 double.
pub const SIGN_BIT: u64 = 0x8000_0000_0000_0000;

/// Bit pattern of the double 1.0, the highest score.
pub const ONE_BITS: u64 = 0x3FF0_0000_0000_0000;

/// A relevance score, held as the bit pattern of the double that the oracle
/// returned. Its numeric order is given by `rank`, under which both zeros are
/// equal and every finite double keeps its place.
#[derive(Clone, Copy, Debug, PartialEq, Eq, Structural)]
pub struct Score {
    pub bits: u64,
}

/// The position of a double's bit pattern in numeric order: non-negative
/// values keep their bits, negative ones mirror below zero.
pub open spec fn rank_of(bits: u64) -> int {
    if bits < SIGN_BIT {
        bits as int
    } else {
        SIGN_BIT as int - bits as int
    }
}

impl Score {
    pub open spec fn rank(self) -> int {
        rank_of(self.bits)
    }

    /// The score lies between 0 and 1, both included.
    pub open spec fn in_unit_range(self) -> bool {
        0 <= self.rank() <= rank_of(ONE_BITS)
    }

    /// Whether the score lies between 0 and 1, both included.
    pub fn is_in_unit_range(&self) -> (r: bool)
        ensures
            r == self.in_unit_range(),
    {
        self.bits <= ONE_BITS || self.bits == SIGN_BIT
    }

    /// The score given to a file that the oracle left unscored.
    pub fn zero() -> (r: Score)
        ensures
            r.bits == 0,
            r.rank() == 0,
            r.in_unit_range(),
    {
        Score { bits: 0 }
    }

    pub fn from_bits(bits: u64) -> (r: Score)
        ensures
            r.bits == bits,
    {
        Score { bits }
    }

    /// Whether the score is strictly above zero.
    pub fn is_positive(&self) -> (r: bool)
        ensures
            r == (self.rank() > 0),
    {
        self.bits > 0 && self.bits < SIGN_BIT
    }

    /// Whether this score is at least as high as `other`.
    pub fn at_least(&self, other: &Score) -> (r: bool)
        ensures
            r == (self.rank() >= other.rank()),
    {
        if self.bits < SIGN_BIT {
            if other.bits < SIGN_BIT {
                self.bits >= other.bits
            } else {
                true
            }
        } else if other.bits < SIGN_BIT {
            self.bits == SIGN_BIT && other.bits == 0
        } else {
            self.bits <= other.bits
        }
    }
}

} // verus!
