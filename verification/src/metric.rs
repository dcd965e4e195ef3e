//! Euclidean distance between grid points, in exact integer arithmetic.

use vstd::prelude::*;

verus! {

/// A grid point: row first, then column.
pub type Point = (usize, usize);

/// Two to the power 128, one more than the largest `u128`.
pub open spec fn two_pow_128() -> nat {
    0x1_0000_0000_0000_0000_0000_0000_0000_0000nat
}

/// The absolute difference of two coordinates.
pub open spec fn gap(a: int, b: int) -> nat {
    if a >= b {
        (a - b) as nat
    } else {
        (b - a) as nat
    }
}

/// The square of the Euclidean distance between two grid points.
pub open spec fn squared_distance(p1: Point, p2: Point) -> nat {
    gap(p1.0 as int, p2.0 as int) * gap(p1.0 as int, p2.0 as int) + gap(p1.1 as int, p2.1 as int)
        * gap(p1.1 as int, p2.1 as int)
}

/// A Euclidean distance between two grid points, held exactly as its square.
///
/// Distances compare as their squares do, so no square root is ever taken and
/// no rounding can turn two different distances into a tie. The square of a
/// distance between `usize` coordinates may need 129 bits: `carry` is the top
/// bit and `low` the 128 bits below it.
#[derive(Clone, Copy, Debug)]
pub struct Distance {
    carry: bool,
    low: u128,
}

impl Distance {
    /// The square of this distance.
    pub closed spec fn squared(&self) -> nat {
        if self.carry {
            two_pow_128() + self.low as nat
        } else {
            self.low as nat
        }
    }

    /// The square of this distance, or `None` where it does not fit in a `u128`.
    pub fn squared_value(&self) -> (v: Option<u128>)
        ensures
            match v {
                Some(s) => s == self.squared(),
                None => self.squared() > u128::MAX,
            },
    {
        if self.carry {
            None
        } else {
            Some(self.low)
        }
    }

    /// Whether this distance is strictly shorter than `other`.
    pub fn is_shorter_than(&self, other: &Distance) -> (b: bool)
        ensures
            b == (self.squared() < other.squared()),
    {
        if self.carry == other.carry {
            self.low < other.low
        } else {
            other.carry
        }
    }

    /// Whether this distance is at most `radius`.
    pub fn is_within(&self, radius: u64) -> (b: bool)
        ensures
            b == (self.squared() <= radius * radius),
    {
        assert(radius * radius <= 0xFFFF_FFFF_FFFF_FFFF * 0xFFFF_FFFF_FFFF_FFFF) by (nonlinear_arith)
            requires
                radius <= 0xFFFF_FFFF_FFFF_FFFF,
        ;
        let r: u128 = radius as u128;
        !self.carry && self.low <= r * r
    }
}

/// The absolute difference of two coordinates, computed without ever
/// subtracting the larger from the smaller.
fn abs_diff(a: usize, b: usize) -> (d: usize)
    ensures
        d == gap(a as int, b as int),
{
    if a >= b {
        a - b
    } else {
        b - a
    }
}

/// The Euclidean distance between two grid points.
pub fn distance(p1: &Point, p2: &Point) -> (d: Distance)
    ensures
        d.squared() == squared_distance(*p1, *p2),
{
    let delta_c: u128 = abs_diff(p1.1, p2.1) as u128;
    let delta_r: u128 = abs_diff(p1.0, p2.0) as u128;
    assert(delta_c * delta_c <= 0xFFFF_FFFF_FFFF_FFFF * 0xFFFF_FFFF_FFFF_FFFF) by (nonlinear_arith)
        requires
            delta_c <= 0xFFFF_FFFF_FFFF_FFFF,
    ;
    assert(delta_r * delta_r <= 0xFFFF_FFFF_FFFF_FFFF * 0xFFFF_FFFF_FFFF_FFFF) by (nonlinear_arith)
        requires
            delta_r <= 0xFFFF_FFFF_FFFF_FFFF,
    ;
    let square_c: u128 = delta_c * delta_c;
    let square_r: u128 = delta_r * delta_r;
    let room: u128 = u128::MAX - square_r;
    if square_c > room {
        Distance { carry: true, low: square_c - room - 1 }
    } else {
        Distance { carry: false, low: square_r + square_c }
    }
}

/// A point is at distance zero from itself.
pub proof fn distance_to_self_is_zero(p: Point)
    ensures
        squared_distance(p, p) == 0,
{
    assert(gap(p.0 as int, p.0 as int) == 0);
    assert(gap(p.1 as int, p.1 as int) == 0);
}

/// The distance from `a` to `b` is the distance from `b` to `a`.
pub proof fn distance_is_symmetric(a: Point, b: Point)
    ensures
        squared_distance(a, b) == squared_distance(b, a),
{
}

} // verus!
