//! Simulation time.
//!
//! A [`Time`] stands for one IEEE 754 binary64 value. It is held as a signed
//! integer, the value's *rank*, chosen so that the order of ranks is the
//! order of the values they stand for. For every pair of binary64 values `x`
//! and `y` that are not NaN, `x < y` holds exactly when the rank of `x` is
//! below the rank of `y`; the two zeros share rank 0; every NaN shares one
//! rank above that of positive infinity, so that the order is total.

use std::cmp::Ordering;
use vstd::prelude::*;
use vstd::std_specs::cmp::PartialOrdSpecImpl;

verus! {

/// The sign bit of a binary64 bit pattern.
pub const SIGN_BIT: u64 = 0x8000_0000_0000_0000;

/// The bit pattern of positive infinity: the largest magnitude that is a number.
pub const INFINITY_BITS: u64 = 0x7ff0_0000_0000_0000;

/// The bit pattern of the one NaN that a [`Time`] hands out.
pub const NAN_BITS: u64 = 0x7ff8_0000_0000_0000;

/// The bit pattern with its sign bit cleared.
pub open spec fn magnitude_of(bits: u64) -> int {
    if bits >= SIGN_BIT {
        bits - SIGN_BIT
    } else {
        bits as int
    }
}

/// Whether the bit pattern encodes a NaN: an all-ones exponent with a
/// non-zero fraction, whatever the sign.
pub open spec fn is_nan_bits(bits: u64) -> bool {
    magnitude_of(bits) > INFINITY_BITS
}

/// The rank of the value that a bit pattern encodes.
pub open spec fn rank_of_bits(bits: u64) -> int {
    if is_nan_bits(bits) {
        NAN_BITS as int
    } else if bits >= SIGN_BIT {
        -magnitude_of(bits)
    } else {
        magnitude_of(bits)
    }
}

/// The bit pattern that stands for a rank; ranks outside the valid range
/// read as NaN.
pub open spec fn bits_of_rank(rank: int) -> u64 {
    if 0 <= rank <= INFINITY_BITS {
        rank as u64
    } else if -(INFINITY_BITS as int) <= rank < 0 {
        (SIGN_BIT + (-rank)) as u64
    } else {
        NAN_BITS
    }
}

/// The bit pattern to which `Time::from_bits` followed by `Time::to_bits`
/// takes `bits`: negative zero becomes zero, every NaN becomes `NAN_BITS`, and
/// all other patterns stay as they are.
pub open spec fn canonical_bits(bits: u64) -> u64 {
    if is_nan_bits(bits) {
        NAN_BITS
    } else if bits == SIGN_BIT {
        0
    } else {
        bits
    }
}

/// A point on the simulation clock.
#[derive(Clone, Copy, Debug, PartialEq, Eq, Ord, Hash, Structural)]
pub struct Time {
    rank: i64,
}

impl View for Time {
    type V = int;

    /// The rank of this time.
    closed spec fn view(&self) -> int {
        self.rank as int
    }
}

impl Time {
    /// A rank that some binary64 value has.
    pub open spec fn wf(&self) -> bool {
        -(INFINITY_BITS as int) <= self@ <= INFINITY_BITS || self@ == NAN_BITS
    }

    /// Whether this time is not a number.
    pub open spec fn spec_is_nan(&self) -> bool {
        self@ > INFINITY_BITS
    }

    /// Time zero, where every clock starts.
    pub fn zero() -> (t: Time)
        ensures
            t@ == 0,
            t.wf(),
    {
        Time { rank: 0 }
    }

    /// The time that a binary64 bit pattern encodes.
    pub fn from_bits(bits: u64) -> (t: Time)
        ensures
            t@ == rank_of_bits(bits),
            t.wf(),
    {
        let negative: bool = bits >= SIGN_BIT;
        let magnitude: u64 = if negative {
            bits - SIGN_BIT
        } else {
            bits
        };
        if magnitude > INFINITY_BITS {
            Time { rank: NAN_BITS as i64 }
        } else if negative {
            Time { rank: -(magnitude as i64) }
        } else {
            Time { rank: magnitude as i64 }
        }
    }

    /// The binary64 bit pattern of this time, in canonical form.
    pub fn to_bits(&self) -> (bits: u64)
        ensures
            bits == bits_of_rank(self@),
    {
        if self.rank >= 0 {
            if self.rank as u64 <= INFINITY_BITS {
                self.rank as u64
            } else {
                NAN_BITS
            }
        } else if self.rank >= -(INFINITY_BITS as i64) {
            SIGN_BIT + ((-self.rank) as u64)
        } else {
            NAN_BITS
        }
    }

    /// Whether this time is not a number.
    #[verifier::when_used_as_spec(spec_is_nan)]
    pub fn is_nan(&self) -> (r: bool)
        ensures
            r == self.spec_is_nan(),
    {
        self.rank > INFINITY_BITS as i64
    }

    /// Whether this time lies strictly before `other`.
    pub fn precedes(&self, other: &Time) -> (r: bool)
        ensures
            r == (self@ < other@),
    {
        self.rank < other.rank
    }

    /// Two times are the same time exactly when they have the same rank.
    pub proof fn lemma_equal_iff_same_rank(a: Time, b: Time)
        ensures
            (a == b) <==> (a@ == b@),
    {
    }

    /// Reading a bit pattern and writing it back yields its canonical form.
    pub proof fn lemma_bits_round_trip(bits: u64)
        ensures
            bits_of_rank(rank_of_bits(bits)) == canonical_bits(bits),
    {
    }

    /// Writing a time's bits and reading them back yields the same time.
    pub proof fn lemma_time_round_trip(t: Time)
        requires
            t.wf(),
        ensures
            rank_of_bits(bits_of_rank(t@)) == t@,
    {
    }

    /// Every NaN has the same rank, no bit pattern has a greater one, and
    /// only a NaN has that rank.
    pub proof fn lemma_nan_is_greatest(a: u64, b: u64)
        requires
            is_nan_bits(b),
        ensures
            rank_of_bits(a) <= rank_of_bits(b),
            is_nan_bits(a) <==> rank_of_bits(a) == rank_of_bits(b),
    {
    }

    /// Among bit patterns of numbers, rank follows sign and magnitude: a
    /// negative value lies below every non-negative one, non-negative values
    /// rise with their magnitude, and negative values fall with it.
    pub proof fn lemma_rank_follows_sign_and_magnitude(a: u64, b: u64)
        requires
            !is_nan_bits(a),
            !is_nan_bits(b),
        ensures
            a < SIGN_BIT && b < SIGN_BIT ==> (rank_of_bits(a) < rank_of_bits(b) <==> a < b),
            a >= SIGN_BIT && b >= SIGN_BIT ==> (rank_of_bits(a) < rank_of_bits(b) <==> a > b),
            a >= SIGN_BIT && b < SIGN_BIT ==> rank_of_bits(a) <= rank_of_bits(b),
            a >= SIGN_BIT && b < SIGN_BIT ==> (rank_of_bits(a) == rank_of_bits(b) <==> a == SIGN_BIT
                && b == 0),
    {
    }
}

impl Default for Time {
    /// Time zero.
    fn default() -> (t: Time)
        ensures
            t@ == 0,
            t.wf(),
    {
        Time::zero()
    }
}

impl PartialOrd for Time {
    fn partial_cmp(&self, other: &Time) -> (r: Option<Ordering>) {
        if self.rank < other.rank {
            Some(Ordering::Less)
        } else if self.rank == other.rank {
            Some(Ordering::Equal)
        } else {
            Some(Ordering::Greater)
        }
    }
}

impl PartialOrdSpecImpl for Time {
    open spec fn obeys_partial_cmp_spec() -> bool {
        true
    }

    /// Times are ordered as their ranks are.
    open spec fn partial_cmp_spec(&self, other: &Time) -> Option<Ordering> {
        if self@ < other@ {
            Some(Ordering::Less)
        } else if self@ == other@ {
            Some(Ordering::Equal)
        } else {
            Some(Ordering::Greater)
        }
    }
}

} // verus!
