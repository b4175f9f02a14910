//! Network coordinates as the node stores and forwards them.
//!
//! A coordinate component is a 64-bit IEEE 754 number, held here by its bit
//! pattern: the node's rules move coordinates around, tell finite from
//! non-finite ones and order scores, all of which the bit pattern decides.
//! Arithmetic on coordinates is left to the embedding program.

use vstd::prelude::*;

verus! {

/// The number of components of a coordinate vector.
pub const COORDINATE_DIMENSIONS: usize = 5;

/// The bits of the exponent field.
pub const EXPONENT_MASK: u64 = 0x7ff0_0000_0000_0000;

/// The sign bit.
pub const SIGN_MASK: u64 = 0x8000_0000_0000_0000;

/// Whether `bits` is the pattern of a finite number: neither an infinity
/// nor a NaN, whose exponent field is all ones.
pub open spec fn is_finite(bits: u64) -> bool {
    bits & EXPONENT_MASK != EXPONENT_MASK
}

/// Whether `bits` is the pattern of zero, of either sign.
pub open spec fn is_zero(bits: u64) -> bool {
    bits & !SIGN_MASK == 0
}

/// Whether a pattern is that of a finite number.
pub fn bits_are_finite(bits: u64) -> (finite: bool)
    ensures
        finite == is_finite(bits),
{
    bits & EXPONENT_MASK != EXPONENT_MASK
}

/// A vector in coordinate space.
#[derive(Clone, Copy, Debug, PartialEq, Eq)]
pub struct NetworkCoord {
    pub bits: [u64; 5],
}

impl NetworkCoord {
    /// Every component is finite.
    pub open spec fn finite(self) -> bool {
        forall|i: int| 0 <= i < COORDINATE_DIMENSIONS ==> is_finite(#[trigger] self.bits[i])
    }

    /// Some component is not zero.
    pub open spec fn nonzero(self) -> bool {
        exists|i: int| 0 <= i < COORDINATE_DIMENSIONS && !is_zero(#[trigger] self.bits[i])
    }

    /// The vector of zeros.
    pub fn zeros() -> (coord: Self)
        ensures
            coord.finite(),
            !coord.nonzero(),
            forall|i: int| 0 <= i < COORDINATE_DIMENSIONS ==> coord.bits[i] == 0,
    {
        let coord = NetworkCoord { bits: [0u64; 5] };
        assert(0u64 & EXPONENT_MASK != EXPONENT_MASK) by (bit_vector);
        assert(0u64 & !SIGN_MASK == 0) by (bit_vector);
        coord
    }

    /// Whether every component is finite.
    pub fn is_finite(&self) -> (finite: bool)
        ensures
            finite == self.finite(),
    {
        let mut i: usize = 0;
        while i < COORDINATE_DIMENSIONS
            invariant
                i <= COORDINATE_DIMENSIONS,
                forall|j: int| 0 <= j < i ==> is_finite(#[trigger] self.bits[j]),
            decreases COORDINATE_DIMENSIONS - i,
        {
            if !bits_are_finite(self.bits[i]) {
                return false;
            }
            i += 1;
        }
        true
    }

    /// Whether two vectors have the same components, bit for bit.
    pub fn same(&self, other: &NetworkCoord) -> (equal: bool)
        ensures
            equal == (*self == *other),
    {
        let mut i: usize = 0;
        while i < COORDINATE_DIMENSIONS
            invariant
                i <= COORDINATE_DIMENSIONS,
                forall|j: int| 0 <= j < i ==> self.bits[j] == other.bits[j],
            decreases COORDINATE_DIMENSIONS - i,
        {
            if self.bits[i] != other.bits[i] {
                return false;
            }
            i += 1;
        }
        assert(self.bits =~= other.bits);
        true
    }
}

/// The coordinates of a node. The outgoing vector of one node and the
/// incoming vector of another predict the round-trip time from the first to
/// the second.
#[derive(Clone, Copy, Debug, PartialEq, Eq)]
pub struct Coordinates {
    pub out_coord: NetworkCoord,
    pub in_coord: NetworkCoord,
}

impl Coordinates {
    /// Both vectors are finite.
    pub open spec fn finite(self) -> bool {
        self.out_coord.finite() && self.in_coord.finite()
    }

    /// Coordinates from an outgoing and an incoming vector.
    pub fn new(out_coord: NetworkCoord, in_coord: NetworkCoord) -> (coords: Self)
        ensures
            coords.out_coord == out_coord,
            coords.in_coord == in_coord,
    {
        Coordinates { out_coord, in_coord }
    }

    /// Whether both vectors are finite.
    pub fn is_finite(&self) -> (finite: bool)
        ensures
            finite == self.finite(),
    {
        self.out_coord.is_finite() && self.in_coord.is_finite()
    }

    /// Whether two pairs of vectors are the same, bit for bit.
    pub fn same(&self, other: &Coordinates) -> (equal: bool)
        ensures
            equal == (*self == *other),
    {
        self.out_coord.same(&other.out_coord) && self.in_coord.same(&other.in_coord)
    }
}

} // verus!
