//! Decimal fixed-point numbers: an `i64` counts millionths of a world unit
//! (or of a radian, or of a second).

use vstd::prelude::*;

verus! {

/// How many raw units make one whole unit.
pub const SCALE: i64 = 1_000_000;

/// The largest magnitude a stored quantity may have for the arithmetic of one
/// tick to stay inside the machine integers: a million whole units.
pub const LIMIT: i64 = 1_000_000_000_000;

/// `v` lies within `LIMIT` of zero.
pub open spec fn within_limit(v: int) -> bool {
    -LIMIT <= v <= LIMIT
}

/// Quotient of `n` by a positive `d`, rounded toward zero.
pub open spec fn trunc_div(n: int, d: int) -> int {
    if n >= 0 {
        n / d
    } else {
        -((-n) / d)
    }
}

/// Product of two fixed-point numbers, rounded toward zero.
pub open spec fn mul_fixed_spec(a: int, b: int) -> int {
    trunc_div(a * b, SCALE as int)
}

/// The integer square root: the largest `r` with `r * r <= n`.
pub open spec fn floor_sqrt(n: nat) -> nat {
    choose|r: nat| is_floor_sqrt(n, r)
}

/// `r` is the integer square root of `n`.
pub open spec fn is_floor_sqrt(n: nat, r: nat) -> bool {
    r * r <= n < (r + 1) * (r + 1)
}

/// Rounding toward zero never grows a magnitude, keeps the sign, and is odd.
pub proof fn lemma_trunc_div_bounds(n: int, d: int)
    requires
        d > 0,
    ensures
        n >= 0 ==> 0 <= trunc_div(n, d) <= n,
        n <= 0 ==> n <= trunc_div(n, d) <= 0,
        trunc_div(-n, d) == -trunc_div(n, d),
        n >= 0 ==> d * trunc_div(n, d) <= n < d * trunc_div(n, d) + d,
        n <= 0 ==> d * trunc_div(n, d) - d < n <= d * trunc_div(n, d),
{
    let m = if n >= 0 { n } else { -n };
    vstd::arithmetic::div_mod::lemma_fundamental_div_mod(m, d);
    vstd::arithmetic::div_mod::lemma_mod_bound(m, d);
    vstd::arithmetic::div_mod::lemma_div_pos_is_pos(m, d);
    let q = m / d;
    assert(d * q <= m);
    assert(q <= m) by (nonlinear_arith)
        requires
            d >= 1,
            q >= 0,
            d * q <= m,
    ;
    assert(d * (-q) == -(d * q)) by (nonlinear_arith);
    assert(m == d * q + m % d);
    if n == 0 {
        assert(0int / d == 0) by (nonlinear_arith)
            requires
                d > 0,
        ;
    }
}

/// Only one number is the integer square root of `n`.
pub proof fn lemma_floor_sqrt_unique(n: nat, r: nat)
    requires
        is_floor_sqrt(n, r),
    ensures
        floor_sqrt(n) == r,
{
    let s = floor_sqrt(n);
    assert(is_floor_sqrt(n, s));
    assert(s == r) by (nonlinear_arith)
        requires
            r * r <= n < (r + 1) * (r + 1),
            s * s <= n < (s + 1) * (s + 1),
    ;
}

/// Every number has an integer square root.
pub proof fn lemma_floor_sqrt(n: nat)
    ensures
        is_floor_sqrt(n, floor_sqrt(n)),
    decreases n,
{
    if n == 0 {
        assert(is_floor_sqrt(0, 0)) by (nonlinear_arith);
    } else {
        lemma_floor_sqrt((n - 1) as nat);
        let r = floor_sqrt((n - 1) as nat);
        if (r + 1) * (r + 1) <= n {
            assert(is_floor_sqrt(n, r + 1)) by (nonlinear_arith)
                requires
                    r * r <= n - 1 < (r + 1) * (r + 1),
                    (r + 1) * (r + 1) <= n,
            ;
        } else {
            assert(is_floor_sqrt(n, r));
        }
    }
}

/// A product of bounded factors is bounded, before and after rescaling.
pub proof fn lemma_mul_fixed_bound(a: int, b: int, ma: int, mb: int)
    requires
        -ma <= a <= ma,
        -mb <= b <= mb,
    ensures
        -(ma * mb) <= a * b <= ma * mb,
        -((ma * mb) / (SCALE as int)) <= mul_fixed_spec(a, b) <= (ma * mb) / (SCALE as int),
{
    assert(-(ma * mb) <= a * b <= ma * mb) by (nonlinear_arith)
        requires
            -ma <= a <= ma,
            -mb <= b <= mb,
    ;
    let n = a * b;
    let m = if n >= 0 { n } else { -n };
    vstd::arithmetic::div_mod::lemma_div_is_ordered(m, ma * mb, SCALE as int);
}

/// Multiplies two fixed-point numbers, rounding toward zero.
pub fn mul_fixed(a: i64, b: i64) -> (r: i64)
    requires
        i64::MIN <= mul_fixed_spec(a as int, b as int) <= i64::MAX,
    ensures
        r == mul_fixed_spec(a as int, b as int),
{
    proof {
        assert(-0x4000_0000_0000_0000_0000_0000_0000_0000 <= (a as int) * (b as int)
            <= 0x4000_0000_0000_0000_0000_0000_0000_0000) by (nonlinear_arith)
            requires
                -0x8000_0000_0000_0000 <= a <= 0x7fff_ffff_ffff_ffff,
                -0x8000_0000_0000_0000 <= b <= 0x7fff_ffff_ffff_ffff,
        ;
    }
    let wide: i128 = (a as i128) * (b as i128);
    let q: i128 = wide / (SCALE as i128);
    q as i64
}

/// Computes the integer square root by bisection.
pub fn isqrt(n: u128) -> (r: u128)
    ensures
        r == floor_sqrt(n as nat),
        is_floor_sqrt(n as nat, r as nat),
        r < 0x1_0000_0000_0000_0000,
{
    let mut lo: u128 = 0;
    let mut hi: u128 = 0x1_0000_0000_0000_0000;
    while hi - lo > 1
        invariant
            lo < hi <= 0x1_0000_0000_0000_0000,
            lo * lo <= n < hi * hi,
        decreases hi - lo,
    {
        let mid: u128 = lo + (hi - lo) / 2;
        assert(mid * mid <= 0xffff_ffff_ffff_ffff * 0xffff_ffff_ffff_ffff) by (nonlinear_arith)
            requires
                0 <= mid <= 0xffff_ffff_ffff_ffff,
        ;
        if mid * mid <= n {
            lo = mid;
        } else {
            hi = mid;
        }
    }
    proof {
        assert(hi == lo + 1);
        lemma_floor_sqrt_unique(n as nat, lo as nat);
    }
    lo
}

} // verus!
