//! Fixed-point vectors, saturating kinematics and distance comparisons.

use vstd::prelude::*;

verus! {

/// A point or a displacement with three fixed-point components.
#[derive(Clone, Copy, Debug, PartialEq, Eq, Structural)]
pub struct Vec3 {
    pub x: i64,
    pub y: i64,
    pub z: i64,
}

/// The value of `v` brought into the `i64` range.
pub open spec fn clamp(v: int) -> int {
    if v < i64::MIN as int {
        i64::MIN as int
    } else if v > i64::MAX as int {
        i64::MAX as int
    } else {
        v
    }
}

/// `base + rate * steps`, saturated to the `i64` range.
pub open spec fn advance(base: int, rate: int, steps: int) -> int {
    clamp(base + rate * steps)
}

/// The square of the distance between `a` and `b`.
pub open spec fn dist_sq(a: Vec3, b: Vec3) -> int {
    (a.x - b.x) * (a.x - b.x) + (a.y - b.y) * (a.y - b.y) + (a.z - b.z) * (a.z - b.z)
}

/// Whether `a` and `b` are strictly less than `reach` apart.
pub open spec fn closer_than(a: Vec3, b: Vec3, reach: int) -> bool {
    dist_sq(a, b) < reach * reach
}

/// Whether `a` and `b` are strictly more than `reach` apart.
pub open spec fn farther_than(a: Vec3, b: Vec3, reach: int) -> bool {
    dist_sq(a, b) > reach * reach
}

/// Brings a wide intermediate result back into the `i64` range.
pub fn saturate(v: i128) -> (r: i64)
    ensures
        r as int == clamp(v as int),
{
    if v < i64::MIN as i128 {
        i64::MIN
    } else if v > i64::MAX as i128 {
        i64::MAX
    } else {
        v as i64
    }
}

/// Computes `base + rate * steps` exactly and saturates the result.
pub fn advanced(base: i64, rate: i64, steps: i64) -> (r: i64)
    ensures
        r as int == advance(base as int, rate as int, steps as int),
{
    assert(-0x4000_0000_0000_0000_0000_0000_0000_0000 <= (rate as int) * (steps as int)
        <= 0x4000_0000_0000_0000_0000_0000_0000_0000) by (nonlinear_arith)
        requires
            -0x8000_0000_0000_0000 <= rate as int <= 0x7fff_ffff_ffff_ffff,
            -0x8000_0000_0000_0000 <= steps as int <= 0x7fff_ffff_ffff_ffff,
    ;
    let product: i128 = (rate as i128) * (steps as i128);
    saturate(base as i128 + product)
}

/// The absolute difference of two coordinates.
fn gap(a: i64, b: i64) -> (d: u128)
    ensures
        d as int == if a >= b { a - b } else { b - a },
        d <= u64::MAX,
{
    let wide: i128 = a as i128 - b as i128;
    if wide < 0 {
        (-wide) as u128
    } else {
        wide as u128
    }
}

/// The square of a coordinate difference; it always fits in 128 bits.
fn gap_sq(a: i64, b: i64) -> (s: u128)
    ensures
        s as int == (a - b) * (a - b),
{
    let d: u128 = gap(a, b);
    assert(0 <= (d as int) * (d as int) <= 0xffff_ffff_ffff_ffff * 0xffff_ffff_ffff_ffff)
        by (nonlinear_arith)
        requires
            0 <= d as int <= 0xffff_ffff_ffff_ffff,
    ;
    assert((d as int) * (d as int) == (a - b) * (a - b)) by (nonlinear_arith)
        requires
            d as int == a - b || d as int == -(a - b),
    ;
    d * d
}

/// Whether `p + q + r < bound`, decided without forming the sum.
fn sum_below(p: u128, q: u128, r: u128, bound: u128) -> (b: bool)
    ensures
        b == (p + q + r < bound),
{
    if p >= bound {
        return false;
    }
    let left: u128 = bound - p;
    if q >= left {
        return false;
    }
    r < left - q
}

/// Whether `p + q + r > bound`, decided without forming the sum.
fn sum_above(p: u128, q: u128, r: u128, bound: u128) -> (b: bool)
    ensures
        b == (p + q + r > bound),
{
    if p > bound {
        return true;
    }
    let left: u128 = bound - p;
    if q > left {
        return true;
    }
    r > left - q
}

/// The square of a reach; it always fits in 128 bits.
fn reach_sq(reach: u64) -> (s: u128)
    ensures
        s as int == reach * reach,
{
    assert(0 <= (reach as int) * (reach as int) <= 0xffff_ffff_ffff_ffff * 0xffff_ffff_ffff_ffff)
        by (nonlinear_arith)
        requires
            0 <= reach as int <= 0xffff_ffff_ffff_ffff,
    ;
    (reach as u128) * (reach as u128)
}

impl Vec3 {
    /// The vector with the given components.
    pub fn new(x: i64, y: i64, z: i64) -> (v: Vec3)
        ensures
            v == (Vec3 { x, y, z }),
    {
        Vec3 { x, y, z }
    }

    /// The origin of the world, and the zero displacement.
    pub open spec fn origin() -> Vec3 {
        Vec3 { x: 0, y: 0, z: 0 }
    }

    /// The origin of the world, and the zero displacement.
    pub fn zero() -> (v: Vec3)
        ensures
            v == Vec3::origin(),
    {
        Vec3 { x: 0, y: 0, z: 0 }
    }

    /// `self + rate * steps`, component by component, each saturated.
    pub open spec fn advance(self, rate: Vec3, steps: int) -> Vec3 {
        Vec3 {
            x: advance(self.x as int, rate.x as int, steps) as i64,
            y: advance(self.y as int, rate.y as int, steps) as i64,
            z: advance(self.z as int, rate.z as int, steps) as i64,
        }
    }

    /// Moves `self` by `steps` times `rate`, saturating each component.
    pub fn advanced(self, rate: Vec3, steps: i64) -> (v: Vec3)
        ensures
            v == self.advance(rate, steps as int),
    {
        Vec3 {
            x: advanced(self.x, rate.x, steps),
            y: advanced(self.y, rate.y, steps),
            z: advanced(self.z, rate.z, steps),
        }
    }

    /// Decides whether `self` and `other` are strictly less than `reach` apart.
    pub fn is_closer_than(self, other: Vec3, reach: u64) -> (b: bool)
        ensures
            b == closer_than(self, other, reach as int),
    {
        sum_below(
            gap_sq(self.x, other.x),
            gap_sq(self.y, other.y),
            gap_sq(self.z, other.z),
            reach_sq(reach),
        )
    }

    /// Decides whether `self` and `other` are strictly more than `reach` apart.
    pub fn is_farther_than(self, other: Vec3, reach: u64) -> (b: bool)
        ensures
            b == farther_than(self, other, reach as int),
    {
        sum_above(
            gap_sq(self.x, other.x),
            gap_sq(self.y, other.y),
            gap_sq(self.z, other.z),
            reach_sq(reach),
        )
    }
}

/// Whether `v` is in the `i64` range, so that saturation leaves it alone.
pub open spec fn fits(v: int) -> bool {
    i64::MIN <= v <= i64::MAX
}

/// Comparing squares compares distances. For a reach that is not negative and
/// any length `d` that is not negative: a distance of at most `d` with `d`
/// below the reach is closer than the reach; a distance of at least `d` with
/// `d` at or above the reach is not; and a distance of exactly `d` is closer
/// than the reach exactly when `d` is below it, so that being exactly the
/// reach apart does not count.
pub proof fn lemma_closer_than_is_distance_below(a: Vec3, b: Vec3, reach: int, d: int)
    requires
        reach >= 0,
        d >= 0,
    ensures
        dist_sq(a, b) <= d * d && d < reach ==> closer_than(a, b, reach),
        d * d <= dist_sq(a, b) && reach <= d ==> !closer_than(a, b, reach),
        d * d == dist_sq(a, b) ==> (closer_than(a, b, reach) <==> d < reach),
{
    assert(d < reach ==> d * d < reach * reach) by (nonlinear_arith)
        requires
            reach >= 0,
            d >= 0,
    ;
    assert(reach <= d ==> reach * reach <= d * d) by (nonlinear_arith)
        requires
            reach >= 0,
            d >= 0,
    ;
}

/// The same for the other side: a distance is farther than a reach exactly
/// when it is above it.
pub proof fn lemma_farther_than_is_distance_above(a: Vec3, b: Vec3, reach: int, d: int)
    requires
        reach >= 0,
        d >= 0,
    ensures
        d * d <= dist_sq(a, b) && reach < d ==> farther_than(a, b, reach),
        dist_sq(a, b) <= d * d && d <= reach ==> !farther_than(a, b, reach),
        d * d == dist_sq(a, b) ==> (farther_than(a, b, reach) <==> reach < d),
{
    assert(reach < d ==> reach * reach < d * d) by (nonlinear_arith)
        requires
            reach >= 0,
            d >= 0,
    ;
    assert(d <= reach ==> d * d <= reach * reach) by (nonlinear_arith)
        requires
            reach >= 0,
            d >= 0,
    ;
}

} // verus!
