//! The steering forces of one boid: seeking a target and keeping apart.

use vstd::prelude::*;
use crate::fixed::{floor_sqrt, isqrt, lemma_floor_sqrt, lemma_trunc_div_bounds, trunc_div, SCALE};
use crate::vec3::{Vec3, SPAN};

verus! {

/// The longest a seek force may be.
pub const SEEK_CAP: i64 = 10_000_000;

/// The cube of `SCALE`.
pub const SCALE_CUBED: i128 = 1_000_000_000_000_000_000;

/// The square of `SCALE`.
pub const SCALE_SQUARED: i128 = 1_000_000_000_000;

/// The steering forces acting on a duck, recomputed every tick.
#[derive(Clone, Copy, Debug, PartialEq, Eq, Structural)]
pub struct Boid {
    pub separation: Vec3,
    pub seek_target: Vec3,
}

/// The length of a vector of squared length `n`, rounded up to a whole raw unit.
pub open spec fn ceil_sqrt(n: nat) -> nat {
    if floor_sqrt(n) * floor_sqrt(n) == n {
        floor_sqrt(n)
    } else {
        floor_sqrt(n) + 1
    }
}

/// One coordinate of the seek force toward a target at offset `delta`: the
/// coordinate `c` of `delta` itself while the target is within `SEEK_CAP`,
/// else `c` shortened in the ratio of `SEEK_CAP` to the length of `delta`
/// rounded up.
pub open spec fn seek_axis_spec(delta: Vec3, c: int) -> int {
    if delta.norm_sq() <= SEEK_CAP * SEEK_CAP {
        c
    } else {
        trunc_div(c * SEEK_CAP, ceil_sqrt(delta.norm_sq()) as int)
    }
}

/// How strongly a duck of one class is repelled by a duck of another.
pub open spec fn weight_spec(ego_is_adult: bool, other_is_adult: bool) -> int {
    if ego_is_adult {
        if other_is_adult {
            200
        } else {
            0
        }
    } else {
        if other_is_adult {
            10
        } else {
            1
        }
    }
}

/// One coordinate of the unweighted repulsion on a duck standing at offset
/// `delta` from another: the coordinate `c` of `delta`, divided by the
/// length of `delta` rounded down and by one plus the squared distance.
/// Zero where the two coincide.
pub open spec fn repulsion_axis_spec(delta: Vec3, c: int) -> int {
    if delta.norm_sq() == 0 {
        0
    } else {
        trunc_div(
            c * SCALE_CUBED,
            delta.norm() * (SCALE_SQUARED + delta.norm_sq()),
        )
    }
}

impl Default for Boid {
    /// A boid on which no force acts.
    fn default() -> (b: Boid)
        ensures
            b == (Boid { separation: Vec3::zero_spec(), seek_target: Vec3::zero_spec() }),
    {
        Boid { separation: Vec3::zero(), seek_target: Vec3::zero() }
    }
}

impl Boid {
    /// The sum of the two forces, coordinate by coordinate.
    pub open spec fn total_spec(self) -> (int, int, int) {
        self.seek_target.plus_spec(self.separation)
    }

    /// A boid on which no force acts.
    pub fn new() -> (b: Boid)
        ensures
            b.separation == Vec3::zero_spec(),
            b.seek_target == Vec3::zero_spec(),
    {
        Boid { separation: Vec3::zero(), seek_target: Vec3::zero() }
    }

    /// The steering force: seek plus separation.
    pub fn total_force(&self) -> (f: Vec3)
        requires
            self.separation.bounded(i64::MAX / 2),
            self.seek_target.bounded(i64::MAX / 2),
        ensures
            f.coords() == self.total_spec(),
    {
        self.seek_target.plus(self.separation)
    }
}

/// The force that draws a duck toward a target at offset `delta`: `delta`
/// itself, shortened to `SEEK_CAP` if it is longer. The force is never
/// longer than `SEEK_CAP`, and where it has been shortened it falls short
/// of `SEEK_CAP` by less than four raw units.
pub fn seek_force(delta: Vec3) -> (f: Vec3)
    requires
        delta.bounded(2 * SPAN),
    ensures
        f.x == seek_axis_spec(delta, delta.x as int),
        f.y == seek_axis_spec(delta, delta.y as int),
        f.z == seek_axis_spec(delta, delta.z as int),
        f.bounded(2 * SPAN),
        delta.norm_sq() <= SEEK_CAP * SEEK_CAP ==> f == delta,
        f.norm_sq() <= SEEK_CAP * SEEK_CAP,
        delta.norm_sq() > SEEK_CAP * SEEK_CAP ==> f.norm_sq() >= (SEEK_CAP - 4) * (SEEK_CAP - 4),
{
    let d2: u128 = delta.length_squared();
    if d2 <= 100_000_000_000_000 {
        return delta;
    }
    let floor: u128 = isqrt(d2);
    proof {
        assert(floor >= 10_000_000) by (nonlinear_arith)
            requires
                d2 < (floor + 1) * (floor + 1),
                d2 > 100_000_000_000_000,
                floor >= 0,
        ;
        assert(floor * floor <= 0xffff_ffff_ffff_ffff * 0xffff_ffff_ffff_ffff) by (nonlinear_arith)
            requires
                0 <= floor <= 0xffff_ffff_ffff_ffff,
        ;
    }
    let len: u128 = if floor * floor == d2 {
        floor
    } else {
        floor + 1
    };
    let x = shorten(delta.x, len);
    let y = shorten(delta.y, len);
    let z = shorten(delta.z, len);
    proof {
        assert((len - 1) * (len - 1) <= d2 <= len * len) by (nonlinear_arith)
            requires
                floor * floor <= d2 < (floor + 1) * (floor + 1),
                len == floor && floor * floor == d2 || len == floor + 1 && floor * floor != d2,
                floor >= 1,
        ;
        assert(delta.x * delta.x >= 0) by (nonlinear_arith);
        assert(delta.y * delta.y >= 0) by (nonlinear_arith);
        assert(delta.z * delta.z >= 0) by (nonlinear_arith);
        lemma_shortened_length(
            delta.x as int,
            delta.y as int,
            delta.z as int,
            len as int,
            x as int,
            y as int,
            z as int,
        );
    }
    Vec3 { x, y, z }
}

/// Shortening one coordinate: the square of the result, scaled back up, is
/// no more than the square of the exact value, and falls short of it by
/// less than twice the length times its magnitude.
proof fn lemma_shortened_axis(c: int, len: int, q: int) -> (a: int)
    requires
        len >= 1,
        q == trunc_div(c * SEEK_CAP, len),
    ensures
        a >= 0,
        a * a == SEEK_CAP * SEEK_CAP * (c * c),
        len * len * (q * q) <= a * a,
        len * len * (q * q) >= a * a - 2 * len * a,
{
    let m = if c >= 0 { c } else { -c };
    let a = m * SEEK_CAP;
    lemma_trunc_div_bounds(a, len);
    lemma_trunc_div_bounds(c * SEEK_CAP, len);
    assert((-c) * SEEK_CAP == -(c * SEEK_CAP));
    let k = trunc_div(a, len);
    assert(q == k || q == -k);
    assert(q * q == k * k) by (nonlinear_arith)
        requires
            q == k || q == -k,
    ;
    assert(a * a == SEEK_CAP * SEEK_CAP * (c * c)) by (nonlinear_arith)
        requires
            a == m * SEEK_CAP,
            m == c || m == -c,
    ;
    let t = len * k;
    assert(0 <= t <= a && a - t < len);
    assert(len * len * (k * k) == t * t) by (nonlinear_arith)
        requires
            t == len * k,
    ;
    assert(t * t <= a * a) by (nonlinear_arith)
        requires
            0 <= t <= a,
    ;
    assert(t * t >= a * a - 2 * len * a) by (nonlinear_arith)
        requires
            0 <= t <= a,
            a - t < len,
            len >= 1,
    ;
    a
}

/// A vector longer than `SEEK_CAP`, shortened in the ratio of `SEEK_CAP`
/// to its length rounded up, is no longer than `SEEK_CAP` and shorter by
/// less than four raw units.
proof fn lemma_shortened_length(x: int, y: int, z: int, len: int, qx: int, qy: int, qz: int)
    requires
        len >= SEEK_CAP,
        (len - 1) * (len - 1) <= x * x + y * y + z * z <= len * len,
        qx == trunc_div(x * SEEK_CAP, len),
        qy == trunc_div(y * SEEK_CAP, len),
        qz == trunc_div(z * SEEK_CAP, len),
    ensures
        (SEEK_CAP - 4) * (SEEK_CAP - 4) <= qx * qx + qy * qy + qz * qz <= SEEK_CAP * SEEK_CAP,
{
    let cap = SEEK_CAP as int;
    let ax = lemma_shortened_axis(x, len, qx);
    let ay = lemma_shortened_axis(y, len, qy);
    let az = lemma_shortened_axis(z, len, qz);
    let d2 = x * x + y * y + z * z;
    let s = qx * qx + qy * qy + qz * qz;
    let l2 = len * len;
    let n = ax * ax + ay * ay + az * az;
    let sum = ax + ay + az;
    assert(l2 * s == l2 * (qx * qx) + l2 * (qy * qy) + l2 * (qz * qz)) by (nonlinear_arith)
        requires
            s == qx * qx + qy * qy + qz * qz,
    ;
    assert(l2 * (qx * qx) == len * len * (qx * qx));
    assert(n == cap * cap * d2) by (nonlinear_arith)
        requires
            n == ax * ax + ay * ay + az * az,
            ax * ax == cap * cap * (x * x),
            ay * ay == cap * cap * (y * y),
            az * az == cap * cap * (z * z),
            d2 == x * x + y * y + z * z,
    ;
    assert(l2 >= 1) by (nonlinear_arith)
        requires
            l2 == len * len,
            len >= 1,
    ;
    // The upper bound.
    assert(l2 * s <= n);
    assert(n <= cap * cap * l2) by (nonlinear_arith)
        requires
            n == cap * cap * d2,
            d2 <= l2,
    ;
    assert(s <= cap * cap) by (nonlinear_arith)
        requires
            l2 * s <= cap * cap * l2,
            l2 >= 1,
    ;
    // The lower bound.
    let ls = len * sum;
    assert(l2 * s >= n - 2 * ls) by (nonlinear_arith)
        requires
            l2 * s == l2 * (qx * qx) + l2 * (qy * qy) + l2 * (qz * qz),
            l2 * (qx * qx) >= ax * ax - 2 * len * ax,
            l2 * (qy * qy) >= ay * ay - 2 * len * ay,
            l2 * (qz * qz) >= az * az - 2 * len * az,
            n == ax * ax + ay * ay + az * az,
            sum == ax + ay + az,
            ls == len * sum,
    ;
    assert(sum * sum <= 3 * n) by (nonlinear_arith)
        requires
            sum == ax + ay + az,
            n == ax * ax + ay * ay + az * az,
    ;
    assert(sum <= 2 * cap * len) by (nonlinear_arith)
        requires
            sum * sum <= 3 * n,
            n <= cap * cap * l2,
            l2 == len * len,
            sum >= 0,
            cap >= 1,
            len >= 1,
    ;
    assert(ls <= 20_000_000 * l2) by (nonlinear_arith)
        requires
            sum <= 20_000_000 * len,
            l2 == len * len,
            ls == len * sum,
            len >= 1,
    ;
    let floor2 = (len - 1) * (len - 1);
    let near = (cap - 4) * (cap - 4);
    assert(n >= 100_000_000_000_000 * floor2) by (nonlinear_arith)
        requires
            n == cap * cap * d2,
            d2 >= floor2,
            cap == 10_000_000,
    ;
    assert(100_000_000_000_000 * floor2 - 40_000_000 * l2 >= l2 * near) by (nonlinear_arith)
        requires
            l2 == len * len,
            floor2 == (len - 1) * (len - 1),
            near == 99_999_920_000_016,
            len >= 10_000_000,
    ;
    assert(l2 * s >= l2 * near);
    assert(s >= near) by (nonlinear_arith)
        requires
            l2 * s >= l2 * near,
            l2 >= 1,
    ;
}

/// `c * SEEK_CAP / len`, rounded toward zero.
fn shorten(c: i64, len: u128) -> (r: i64)
    requires
        -2 * SPAN <= c <= 2 * SPAN,
        SEEK_CAP <= len <= 0x1_0000_0000_0000_0000,
    ensures
        r == trunc_div(c * SEEK_CAP, len as int),
        -2 * SPAN <= r <= 2 * SPAN,
{
    proof {
        lemma_shorten_bound(c as int, len as int);
    }
    let n: i128 = (c as i128) * (SEEK_CAP as i128);
    let q: i128 = n / (len as i128);
    q as i64
}

/// Shortening in a ratio of at most one never lengthens a coordinate.
proof fn lemma_shorten_bound(c: int, len: int)
    requires
        len >= SEEK_CAP,
    ensures
        c >= 0 ==> 0 <= trunc_div(c * SEEK_CAP, len) <= c,
        c <= 0 ==> c <= trunc_div(c * SEEK_CAP, len) <= 0,
{
    let m = if c >= 0 { c } else { -c };
    let n = m * SEEK_CAP;
    lemma_trunc_div_bounds(n, len);
    lemma_trunc_div_bounds(c * SEEK_CAP, len);
    let q = trunc_div(n, len);
    assert(q <= m) by (nonlinear_arith)
        requires
            len * q <= n,
            n == m * 10_000_000,
            len >= 10_000_000,
            m >= 0,
            q >= 0,
    ;
    assert((-c) * SEEK_CAP == -(c * SEEK_CAP));
}

/// The unweighted repulsion on a duck standing at offset `delta` from
/// another: along `delta`, with strength one over one plus the squared
/// distance. No coordinate of it exceeds one unit.
pub fn repulsion(delta: Vec3) -> (f: Vec3)
    requires
        delta.bounded(SPAN as int),
    ensures
        f.x == repulsion_axis_spec(delta, delta.x as int),
        f.y == repulsion_axis_spec(delta, delta.y as int),
        f.z == repulsion_axis_spec(delta, delta.z as int),
        f.bounded(SCALE as int),
{
    let d2: u128 = delta.length_squared();
    if d2 == 0 {
        return Vec3::zero();
    }
    let len: u128 = isqrt(d2);
    proof {
        lemma_norm_sq_bound(delta);
        assert(1 <= len <= 3_500_000_000_000) by (nonlinear_arith)
            requires
                len * len <= d2 < (len + 1) * (len + 1),
                0 < d2 <= 12_000_000_000_000_000_000_000_000,
                len >= 0,
        ;
        assert(len * (SCALE_SQUARED + d2) <= 3_500_000_000_000
            * 12_000_000_000_001_000_000_000_000) by (nonlinear_arith)
            requires
                0 <= len <= 3_500_000_000_000,
                0 <= SCALE_SQUARED + d2 <= 12_000_000_000_001_000_000_000_000,
        ;
        assert(len * (SCALE_SQUARED + d2) >= 1) by (nonlinear_arith)
            requires
                len >= 1,
                SCALE_SQUARED + d2 >= 1,
        ;
    }
    let denom: u128 = len * (1_000_000_000_000 + d2);
    let x = repel(delta.x, denom, Ghost(len as int), Ghost(d2 as int));
    let y = repel(delta.y, denom, Ghost(len as int), Ghost(d2 as int));
    let z = repel(delta.z, denom, Ghost(len as int), Ghost(d2 as int));
    Vec3 { x, y, z }
}

/// `c * SCALE_CUBED / denom`, rounded toward zero, for a coordinate `c` of a
/// vector of squared length `d2` and rounded length `len`.
fn repel(c: i64, denom: u128, Ghost(len): Ghost<int>, Ghost(d2): Ghost<int>) -> (r: i64)
    requires
        -SPAN <= c <= SPAN,
        len >= 1,
        c * c <= d2 < (len + 1) * (len + 1),
        denom == len * (SCALE_SQUARED + d2),
        denom <= 0x7fff_ffff_ffff_ffff_ffff_ffff_ffff_ffff,
    ensures
        r == trunc_div(c * SCALE_CUBED, denom as int),
        -SCALE <= r <= SCALE,
{
    proof {
        lemma_repel_bound(c as int, len, d2);
    }
    let n: i128 = (c as i128) * SCALE_CUBED;
    let q: i128 = n / (denom as i128);
    q as i64
}

/// The repulsion along one axis is at most one unit.
proof fn lemma_repel_bound(c: int, len: int, d2: int)
    requires
        len >= 1,
        c * c <= d2 < (len + 1) * (len + 1),
    ensures
        len * (SCALE_SQUARED + d2) >= 1,
        -SCALE <= trunc_div(c * SCALE_CUBED, len * (SCALE_SQUARED + d2)) <= SCALE,
{
    let m = if c >= 0 { c } else { -c };
    let denom = len * (SCALE_SQUARED + d2);
    assert(d2 >= 0) by (nonlinear_arith)
        requires
            c * c <= d2,
    ;
    assert(m * m == c * c) by (nonlinear_arith)
        requires
            m == c || m == -c,
    ;
    assert(m <= len) by (nonlinear_arith)
        requires
            m * m <= d2,
            d2 < (len + 1) * (len + 1),
            m >= 0,
            len >= 1,
    ;
    assert(denom >= len * SCALE_SQUARED && denom >= 1) by (nonlinear_arith)
        requires
            denom == len * (SCALE_SQUARED + d2),
            d2 >= 0,
            len >= 1,
    ;
    let n = m * SCALE_CUBED;
    lemma_trunc_div_bounds(n, denom);
    lemma_trunc_div_bounds(c * SCALE_CUBED, denom);
    let q = trunc_div(n, denom);
    assert(q <= SCALE) by (nonlinear_arith)
        requires
            denom * q <= n,
            n == m * 1_000_000_000_000_000_000,
            denom >= len * 1_000_000_000_000,
            0 <= m <= len,
            q >= 0,
            len >= 1,
    ;
    assert((-c) * SCALE_CUBED == -(c * SCALE_CUBED));
}

/// The squared length of a difference of positions.
proof fn lemma_norm_sq_bound(delta: Vec3)
    requires
        delta.bounded(SPAN as int),
    ensures
        delta.norm_sq() <= 12_000_000_000_000_000_000_000_000,
        delta.x * delta.x <= delta.norm_sq(),
        delta.y * delta.y <= delta.norm_sq(),
        delta.z * delta.z <= delta.norm_sq(),
{
    lemma_square_bound(delta.x as int);
    lemma_square_bound(delta.y as int);
    lemma_square_bound(delta.z as int);
}

/// The square of a coordinate of a difference of positions.
proof fn lemma_square_bound(c: int)
    requires
        -SPAN <= c <= SPAN,
    ensures
        0 <= c * c <= 4_000_000_000_000_000_000_000_000,
{
    assert(0 <= c * c <= 4_000_000_000_000_000_000_000_000) by (nonlinear_arith)
        requires
            -2_000_000_000_000 <= c <= 2_000_000_000_000,
    ;
}

/// Seen from either of two ducks, the repulsion between them is the same
/// but for its direction: the repulsion at the offset `e` opposite to `d`
/// is the negative of the repulsion at `d`.
pub proof fn lemma_repulsion_antisymmetric(d: Vec3, e: Vec3)
    requires
        e.x == -d.x,
        e.y == -d.y,
        e.z == -d.z,
    ensures
        repulsion_axis_spec(e, e.x as int) == -repulsion_axis_spec(d, d.x as int),
        repulsion_axis_spec(e, e.y as int) == -repulsion_axis_spec(d, d.y as int),
        repulsion_axis_spec(e, e.z as int) == -repulsion_axis_spec(d, d.z as int),
{
    assert(e.x * e.x == d.x * d.x) by (nonlinear_arith)
        requires
            e.x == -d.x,
    ;
    assert(e.y * e.y == d.y * d.y) by (nonlinear_arith)
        requires
            e.y == -d.y,
    ;
    assert(e.z * e.z == d.z * d.z) by (nonlinear_arith)
        requires
            e.z == -d.z,
    ;
    assert(e.norm_sq() == d.norm_sq());
    if d.norm_sq() != 0 {
        let d2 = d.norm_sq();
        lemma_floor_sqrt(d2);
        let len = d.norm();
        assert(len >= 1) by (nonlinear_arith)
            requires
                d2 < (len + 1) * (len + 1),
                d2 >= 1,
        ;
        let denom = len * (SCALE_SQUARED + d2);
        assert(denom >= 1) by (nonlinear_arith)
            requires
                denom == len * (SCALE_SQUARED + d2),
                len >= 1,
                d2 >= 1,
        ;
        lemma_trunc_div_bounds(d.x * SCALE_CUBED, denom);
        lemma_trunc_div_bounds(d.y * SCALE_CUBED, denom);
        lemma_trunc_div_bounds(d.z * SCALE_CUBED, denom);
        assert(e.x * SCALE_CUBED == -(d.x * SCALE_CUBED));
        assert(e.y * SCALE_CUBED == -(d.y * SCALE_CUBED));
        assert(e.z * SCALE_CUBED == -(d.z * SCALE_CUBED));
    }
}

/// How strongly a duck of one class is repelled by a duck of another. Adults
/// keep well apart from each other and ignore ducklings; ducklings keep
/// moderately clear of adults and only slightly of each other.
pub fn separation_weight(ego_is_adult: bool, other_is_adult: bool) -> (w: i64)
    ensures
        w == weight_spec(ego_is_adult, other_is_adult),
{
    match (ego_is_adult, other_is_adult) {
        (true, true) => 200,
        (true, false) => 0,
        (false, true) => 10,
        (false, false) => 1,
    }
}

} // verus!
