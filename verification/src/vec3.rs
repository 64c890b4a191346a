//! Vectors of fixed-point coordinates.

use vstd::prelude::*;
use crate::fixed::{floor_sqrt, is_floor_sqrt, isqrt};

verus! {

/// A point or direction on the water plane.
#[derive(Clone, Copy, Debug, PartialEq, Eq, Structural)]
pub struct Vec2 {
    pub x: i64,
    pub y: i64,
}

/// A point, velocity or force in the world; `y` points up.
#[derive(Clone, Copy, Debug, PartialEq, Eq, Structural)]
pub struct Vec3 {
    pub x: i64,
    pub y: i64,
    pub z: i64,
}

/// The widest a difference of two stored positions can be.
pub const SPAN: i64 = 2_000_000_000_000;

impl Vec2 {
    /// Every coordinate has magnitude at most `m`.
    pub open spec fn bounded(self, m: int) -> bool {
        -m <= self.x <= m && -m <= self.y <= m
    }

    pub fn new(x: i64, y: i64) -> (v: Vec2)
        ensures
            v == (Vec2 { x, y }),
    {
        Vec2 { x, y }
    }
}

impl Vec3 {
    /// Every coordinate has magnitude at most `m`.
    pub open spec fn bounded(self, m: int) -> bool {
        -m <= self.x <= m && -m <= self.y <= m && -m <= self.z <= m
    }

    /// The vector of all zeros.
    pub open spec fn zero_spec() -> Vec3 {
        Vec3 { x: 0, y: 0, z: 0 }
    }

    /// The square of the length, in squared raw units.
    pub open spec fn norm_sq(self) -> nat {
        (self.x * self.x + self.y * self.y + self.z * self.z) as nat
    }

    /// The length rounded down to a whole raw unit.
    pub open spec fn norm(self) -> nat {
        floor_sqrt(self.norm_sq())
    }

    /// The inner product, in squared raw units.
    pub open spec fn dot_spec(self, o: Vec3) -> int {
        self.x * o.x + self.y * o.y + self.z * o.z
    }

    /// Coordinates of the sum, as mathematical integers.
    pub open spec fn plus_spec(self, o: Vec3) -> (int, int, int) {
        (self.x + o.x, self.y + o.y, self.z + o.z)
    }

    /// Coordinates of the difference, as mathematical integers.
    pub open spec fn minus_spec(self, o: Vec3) -> (int, int, int) {
        (self.x - o.x, self.y - o.y, self.z - o.z)
    }

    /// The coordinates as mathematical integers.
    pub open spec fn coords(self) -> (int, int, int) {
        (self.x as int, self.y as int, self.z as int)
    }

    pub fn new(x: i64, y: i64, z: i64) -> (v: Vec3)
        ensures
            v == (Vec3 { x, y, z }),
    {
        Vec3 { x, y, z }
    }

    pub fn zero() -> (v: Vec3)
        ensures
            v == Vec3::zero_spec(),
    {
        Vec3 { x: 0, y: 0, z: 0 }
    }

    /// The same vector with its height replaced.
    pub fn with_y(self, y: i64) -> (v: Vec3)
        ensures
            v == (Vec3 { x: self.x, y, z: self.z }),
    {
        Vec3 { x: self.x, y, z: self.z }
    }

    /// Tells whether every coordinate has magnitude at most `m`.
    pub fn is_bounded(self, m: i64) -> (b: bool)
        requires
            m >= 0,
        ensures
            b == self.bounded(m as int),
    {
        -m <= self.x && self.x <= m && -m <= self.y && self.y <= m && -m <= self.z && self.z <= m
    }

    /// Coordinate-wise sum.
    pub fn plus(self, o: Vec3) -> (v: Vec3)
        requires
            self.bounded(i64::MAX / 2),
            o.bounded(i64::MAX / 2),
        ensures
            v.coords() == self.plus_spec(o),
    {
        Vec3 { x: self.x + o.x, y: self.y + o.y, z: self.z + o.z }
    }

    /// Coordinate-wise difference.
    pub fn minus(self, o: Vec3) -> (v: Vec3)
        requires
            self.bounded(i64::MAX / 2),
            o.bounded(i64::MAX / 2),
        ensures
            v.coords() == self.minus_spec(o),
    {
        Vec3 { x: self.x - o.x, y: self.y - o.y, z: self.z - o.z }
    }

    /// Inner product.
    pub fn dot(self, o: Vec3) -> (d: i128)
        requires
            self.bounded(i64::MAX / 2),
            o.bounded(i64::MAX / 2),
        ensures
            d == self.dot_spec(o),
    {
        proof {
            lemma_half_product_fits(self.x, o.x);
            lemma_half_product_fits(self.y, o.y);
            lemma_half_product_fits(self.z, o.z);
        }
        (self.x as i128) * (o.x as i128) + (self.y as i128) * (o.y as i128) + (self.z as i128) * (
        o.z as i128)
    }

    /// Squared length.
    pub fn length_squared(self) -> (n: u128)
        ensures
            n == self.norm_sq(),
    {
        proof {
            lemma_product_fits(self.x, self.x);
            lemma_product_fits(self.y, self.y);
            lemma_product_fits(self.z, self.z);
            assert(self.x * self.x >= 0) by (nonlinear_arith);
            assert(self.y * self.y >= 0) by (nonlinear_arith);
            assert(self.z * self.z >= 0) by (nonlinear_arith);
        }
        let xx: i128 = (self.x as i128) * (self.x as i128);
        let yy: i128 = (self.y as i128) * (self.y as i128);
        let zz: i128 = (self.z as i128) * (self.z as i128);
        (xx as u128) + (yy as u128) + (zz as u128)
    }

    /// Length, rounded down to a whole raw unit.
    pub fn length(self) -> (n: u128)
        ensures
            n == self.norm(),
            is_floor_sqrt(self.norm_sq(), n as nat),
    {
        isqrt(self.length_squared())
    }
}

/// The product of two `i64` values has magnitude at most `2^126`.
pub(crate) proof fn lemma_product_fits(a: i64, b: i64)
    ensures
        -0x4000_0000_0000_0000_0000_0000_0000_0000 <= a * b
            <= 0x4000_0000_0000_0000_0000_0000_0000_0000,
{
    assert(-0x4000_0000_0000_0000_0000_0000_0000_0000 <= a * b
        <= 0x4000_0000_0000_0000_0000_0000_0000_0000) by (nonlinear_arith)
        requires
            -0x8000_0000_0000_0000 <= a <= 0x7fff_ffff_ffff_ffff,
            -0x8000_0000_0000_0000 <= b <= 0x7fff_ffff_ffff_ffff,
    ;
}

/// The product of two values of at most half the `i64` range has magnitude
/// at most `2^124`.
pub(crate) proof fn lemma_half_product_fits(a: i64, b: i64)
    requires
        -(i64::MAX / 2) <= a <= i64::MAX / 2,
        -(i64::MAX / 2) <= b <= i64::MAX / 2,
    ensures
        -0x1000_0000_0000_0000_0000_0000_0000_0000 <= a * b
            <= 0x1000_0000_0000_0000_0000_0000_0000_0000,
{
    assert(-0x1000_0000_0000_0000_0000_0000_0000_0000 <= a * b
        <= 0x1000_0000_0000_0000_0000_0000_0000_0000) by (nonlinear_arith)
        requires
            -0x4000_0000_0000_0000 <= a <= 0x4000_0000_0000_0000,
            -0x4000_0000_0000_0000 <= b <= 0x4000_0000_0000_0000,
    ;
}

} // verus!
