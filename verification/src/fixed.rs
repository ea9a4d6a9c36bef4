//! Fixed-point scalars and vectors.
//!
//! Every length, speed, acceleration and duration of the simulation is an
//! integer count of millionths: `UNIT` stands for one simulation unit (or one
//! second). Sums and products never wrap. A result that does not fit in an
//! `i64` saturates at the nearest end of the range, and a quotient is rounded
//! towards negative infinity.

use vstd::prelude::*;

verus! {

/// The fixed-point representation of `1.0`.
pub const UNIT: i64 = 1_000_000;

/// The `i64` nearest to `v`.
pub open spec fn sat64(v: int) -> i64 {
    if v < i64::MIN {
        i64::MIN
    } else if v > i64::MAX {
        i64::MAX
    } else {
        v as i64
    }
}

/// The fixed-point product of two fixed-point numbers.
pub open spec fn product(a: int, b: int) -> i64 {
    sat64(a * b / (UNIT as int))
}

/// The point reached after `elapsed` out of `duration` on the way from
/// `start` to `target`. Nothing confines it to the segment between the two.
pub open spec fn interpolate(start: int, target: int, elapsed: int, duration: int) -> i64 {
    sat64(start + (target - start) * elapsed / duration)
}

/// A quotient by a positive divisor lies between zero and the dividend.
pub proof fn lemma_quotient_between(a: int, b: int)
    by (nonlinear_arith)
    requires
        b > 0,
    ensures
        a >= 0 ==> 0 <= a / b <= a,
        a < 0 ==> a <= a / b < 0,
{
}

/// A product is bounded by the product of the bounds of its factors.
pub proof fn lemma_product_bound(a: int, b: int, m: int, n: int)
    by (nonlinear_arith)
    requires
        -m <= a <= m,
        -n <= b <= n,
    ensures
        -(m * n) <= a * b <= m * n,
{
}

fn narrow(v: i128) -> (r: i64)
    ensures
        r == sat64(v as int),
{
    if v < i64::MIN as i128 {
        i64::MIN
    } else if v > i64::MAX as i128 {
        i64::MAX
    } else {
        v as i64
    }
}

fn floor_div(a: i128, b: i128) -> (r: i128)
    requires
        b > 0,
    ensures
        r == a / b,
{
    proof {
        lemma_quotient_between(a as int, b as int);
    }
    match a.checked_div_euclid(b) {
        Some(q) => q,
        None => 0,
    }
}

/// `a + b`, saturating.
pub fn add_sat(a: i64, b: i64) -> (r: i64)
    ensures
        r == sat64(a + b),
{
    narrow(a as i128 + b as i128)
}

/// `a - b`, saturating.
pub fn sub_sat(a: i64, b: i64) -> (r: i64)
    ensures
        r == sat64(a - b),
{
    narrow(a as i128 - b as i128)
}

/// The instant `dt` after `t`, saturating.
pub fn add_elapsed(t: i64, dt: u64) -> (r: i64)
    ensures
        r == sat64(t + dt),
        r >= t,
{
    narrow(t as i128 + dt as i128)
}

/// What is left of the countdown `t` once `dt` has passed, saturating.
pub fn sub_elapsed(t: i64, dt: u64) -> (r: i64)
    ensures
        r == sat64(t - dt),
        r <= t,
{
    narrow(t as i128 - dt as i128)
}

/// The change that the rate `rate` works in the time `dt`.
pub fn scale_by_elapsed(rate: i64, dt: u64) -> (r: i64)
    ensures
        r == product(rate as int, dt as int),
{
    proof {
        lemma_product_bound(
            rate as int,
            dt as int,
            0x8000_0000_0000_0000,
            0xFFFF_FFFF_FFFF_FFFF,
        );
    }
    let p: i128 = (rate as i128) * (dt as i128);
    narrow(floor_div(p, UNIT as i128))
}

/// The fixed-point product `a * b`.
pub fn mul_fixed(a: i64, b: i64) -> (r: i64)
    ensures
        r == product(a as int, b as int),
{
    proof {
        lemma_product_bound(
            a as int,
            b as int,
            0x8000_0000_0000_0000,
            0x8000_0000_0000_0000,
        );
    }
    let p: i128 = (a as i128) * (b as i128);
    narrow(floor_div(p, UNIT as i128))
}

/// Linear interpolation from `start` to `target` at `elapsed / duration`.
pub fn lerp(start: i64, target: i64, elapsed: i64, duration: i64) -> (r: i64)
    requires
        duration > 0,
    ensures
        r == interpolate(start as int, target as int, elapsed as int, duration as int),
{
    let span: i128 = target as i128 - start as i128;
    proof {
        lemma_product_bound(
            span as int,
            elapsed as int,
            0xFFFF_FFFF_FFFF_FFFF,
            0x8000_0000_0000_0000,
        );
        lemma_quotient_between(span * elapsed, duration as int);
    }
    let p: i128 = span * (elapsed as i128);
    let q: i128 = floor_div(p, duration as i128);
    narrow(start as i128 + q)
}

/// Half of `v`, rounded towards negative infinity.
pub fn half(v: i64) -> (r: i64)
    ensures
        r == v / 2,
{
    floor_div(v as i128, 2) as i64
}

/// A point or a direction in the plane.
#[derive(Clone, Copy, PartialEq, Eq, Debug, Structural)]
pub struct Vec2 {
    pub x: i64,
    pub y: i64,
}

/// A point, a velocity or an acceleration in space.
#[derive(Clone, Copy, PartialEq, Eq, Debug, Structural)]
pub struct Vec3 {
    pub x: i64,
    pub y: i64,
    pub z: i64,
}

impl Vec3 {
    /// The origin.
    pub open spec fn origin() -> Vec3 {
        Vec3 { x: 0, y: 0, z: 0 }
    }

    /// The componentwise saturating sum.
    pub open spec fn sum(self, other: Vec3) -> Vec3 {
        Vec3 {
            x: sat64(self.x + other.x),
            y: sat64(self.y + other.y),
            z: sat64(self.z + other.z),
        }
    }

    /// The change that this rate works in the time `dt`, componentwise.
    pub open spec fn over(self, dt: u64) -> Vec3 {
        Vec3 {
            x: product(self.x as int, dt as int),
            y: product(self.y as int, dt as int),
            z: product(self.z as int, dt as int),
        }
    }

    /// The point at `elapsed / duration` on the way from `self` to `target`.
    pub open spec fn towards(self, target: Vec3, elapsed: i64, duration: i64) -> Vec3 {
        Vec3 {
            x: interpolate(self.x as int, target.x as int, elapsed as int, duration as int),
            y: interpolate(self.y as int, target.y as int, elapsed as int, duration as int),
            z: interpolate(self.z as int, target.z as int, elapsed as int, duration as int),
        }
    }

    pub fn new(x: i64, y: i64, z: i64) -> (v: Vec3)
        ensures
            v == (Vec3 { x, y, z }),
    {
        Vec3 { x, y, z }
    }

    pub fn zero() -> (v: Vec3)
        ensures
            v == Vec3::origin(),
    {
        Vec3 { x: 0, y: 0, z: 0 }
    }

    pub fn plus(self, other: Vec3) -> (v: Vec3)
        ensures
            v == self.sum(other),
    {
        Vec3 {
            x: add_sat(self.x, other.x),
            y: add_sat(self.y, other.y),
            z: add_sat(self.z, other.z),
        }
    }

    pub fn scaled_by_elapsed(self, dt: u64) -> (v: Vec3)
        ensures
            v == self.over(dt),
    {
        Vec3 {
            x: scale_by_elapsed(self.x, dt),
            y: scale_by_elapsed(self.y, dt),
            z: scale_by_elapsed(self.z, dt),
        }
    }

    pub fn lerp(self, target: Vec3, elapsed: i64, duration: i64) -> (v: Vec3)
        requires
            duration > 0,
        ensures
            v == self.towards(target, elapsed, duration),
    {
        Vec3 {
            x: lerp(self.x, target.x, elapsed, duration),
            y: lerp(self.y, target.y, elapsed, duration),
            z: lerp(self.z, target.z, elapsed, duration),
        }
    }
}

} // verus!
