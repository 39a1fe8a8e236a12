//! Rounded fixed-point arithmetic on the unit interval.
//!
//! A channel value `v` of the normalized fixed-point kind stands for the real
//! number `v / UNIT`. `UNIT` is divisible by 255, by 65535 and by 10, so the
//! 8-bit and 16-bit normalizations and tenth-valued test colors are exact.
//! Products and quotients of channel values are rounded to the nearest
//! representable value with a bias of half the divisor (`rdiv`).

use vstd::arithmetic::div_mod::{
    lemma_div_is_ordered, lemma_div_multiples_vanish_fancy, lemma_div_nonincreasing,
    lemma_div_pos_is_pos, lemma_fundamental_div_mod, lemma_fundamental_div_mod_converse,
};
use vstd::prelude::*;

verus! {

/// The fixed-point scale: this value stands for 1.0.
pub const UNIT: i64 = 131070;

/// Half of `UNIT`: this value stands for 0.5.
pub const HALF: i64 = 65535;

/// The smaller of two integers.
pub open spec fn imin(a: int, b: int) -> int {
    if a < b {
        a
    } else {
        b
    }
}

/// The larger of two integers.
pub open spec fn imax(a: int, b: int) -> int {
    if a < b {
        b
    } else {
        a
    }
}

/// The smallest of three integers.
pub open spec fn imin3(a: int, b: int, c: int) -> int {
    imin(imin(a, b), c)
}

/// The largest of three integers.
pub open spec fn imax3(a: int, b: int, c: int) -> int {
    imax(imax(a, b), c)
}

/// Division of `n` by a positive `d`, rounded to the nearest integer with a
/// bias of `d / 2`; a negative `n` is divided by its magnitude and negated.
pub open spec fn rdiv(n: int, d: int) -> int
    recommends
        0 < d,
{
    if n >= 0 {
        (n + d / 2) / d
    } else {
        -((-n + d / 2) / d)
    }
}

/// The rounded fixed-point product: `x * y` scaled back down by `UNIT`.
pub open spec fn rmul(x: int, y: int) -> int {
    rdiv(x * y, UNIT as int)
}

/// `d / 2` is nonnegative and doubles back to at most `d`.
proof fn lemma_half(d: int)
    requires
        0 < d,
    ensures
        0 <= d / 2,
        2 * (d / 2) <= d,
        d < 2 * (d / 2) + 2,
{
    lemma_fundamental_div_mod(d, 2);
}

/// A rounded quotient of a nonnegative numerator is nonnegative.
pub proof fn lemma_rdiv_nonneg(n: int, d: int)
    requires
        0 <= n,
        0 < d,
    ensures
        0 <= rdiv(n, d),
{
    lemma_half(d);
    lemma_div_pos_is_pos(n + d / 2, d);
}

/// Dividing at most `k * d` gives at most `k`.
pub proof fn lemma_rdiv_le(n: int, d: int, k: int)
    requires
        0 <= n <= k * d,
        0 < d,
    ensures
        rdiv(n, d) <= k,
{
    lemma_half(d);
    lemma_div_is_ordered(n + d / 2, k * d + d / 2, d);
    assert(k * d == d * k) by (nonlinear_arith);
    lemma_div_multiples_vanish_fancy(k, d / 2, d);
}

/// Rounded division undoes an exact multiple of the divisor.
pub proof fn lemma_rdiv_exact(k: int, d: int)
    requires
        0 < d,
    ensures
        rdiv(k * d, d) == k,
{
    lemma_half(d);
    if k >= 0 {
        assert(k * d == d * k) by (nonlinear_arith);
        lemma_div_multiples_vanish_fancy(k, d / 2, d);
    } else {
        assert(-(k * d) == d * (-k)) by (nonlinear_arith);
        assert(k * d < 0) by (nonlinear_arith)
            requires
                k < 0,
                0 < d,
        ;
        lemma_div_multiples_vanish_fancy(-k, d / 2, d);
    }
}

/// Rounded division of zero gives zero.
pub proof fn lemma_rdiv_zero(d: int)
    requires
        0 < d,
    ensures
        rdiv(0, d) == 0,
{
    lemma_half(d);
    assert(d / 2 < d);
    lemma_fundamental_div_mod_converse(d / 2, d, 0, d / 2);
}

/// A numerator bounded by `k * d` in magnitude yields a quotient bounded by `k`.
pub proof fn lemma_rdiv_bound(n: int, d: int, k: int)
    requires
        0 < d,
        0 <= k,
        -(k * d) <= n <= k * d,
    ensures
        -k <= rdiv(n, d) <= k,
{
    if n >= 0 {
        lemma_rdiv_nonneg(n, d);
        lemma_rdiv_le(n, d, k);
    } else {
        lemma_rdiv_nonneg(-n, d);
        lemma_rdiv_le(-n, d, k);
    }
}

/// Rounded division by a positive `d`, computed exactly as `rdiv` states.
pub fn rdiv64(n: i64, d: i64) -> (q: i64)
    requires
        0 < d <= 0x100000,
        -0x2000_0000_0000_0000 <= n <= 0x2000_0000_0000_0000,
    ensures
        q == rdiv(n as int, d as int),
{
    let half: u64 = (d as u64) / 2;
    if n >= 0 {
        let q0: u64 = ((n as u64) + half) / (d as u64);
        proof {
            lemma_div_nonincreasing((n + d / 2) as int, d as int);
        }
        q0 as i64
    } else {
        let m: i64 = -n;
        let q0: u64 = ((m as u64) + half) / (d as u64);
        proof {
            lemma_div_nonincreasing((m + d / 2) as int, d as int);
        }
        -(q0 as i64)
    }
}

/// The rounded fixed-point product, with its unit-interval bounds.
pub fn rmul64(x: i64, y: i64) -> (v: i64)
    requires
        0 <= x <= UNIT,
        0 <= y <= UNIT,
    ensures
        v == rmul(x as int, y as int),
        0 <= v <= UNIT,
{
    proof {
        assert(x * y <= UNIT * y && UNIT * y <= UNIT * (UNIT as int) && 0 <= x * y)
            by (nonlinear_arith)
            requires
                0 <= x <= UNIT,
                0 <= y <= UNIT,
        ;
        lemma_rdiv_nonneg((x * y) as int, UNIT as int);
        lemma_rdiv_le((x * y) as int, UNIT as int, UNIT as int);
    }
    rdiv64(x * y, UNIT)
}

/// Multiplying by `UNIT` (the fixed-point 1.0) is exact in either position.
pub proof fn lemma_rmul_unit(x: int)
    ensures
        rmul(UNIT as int, x) == x,
        rmul(x, UNIT as int) == x,
{
    assert((UNIT as int) * x == x * (UNIT as int)) by (nonlinear_arith);
    lemma_rdiv_exact(x, UNIT as int);
}

/// Multiplying by zero gives zero in either position.
pub proof fn lemma_rmul_zero(x: int)
    ensures
        rmul(0, x) == 0,
        rmul(x, 0) == 0,
{
    assert(0 * x == 0 && x * 0 == 0) by (nonlinear_arith);
    lemma_rdiv_exact(0, UNIT as int);
}

/// The product of two unit-interval values is nonnegative and at most
/// `UNIT * UNIT`.
pub proof fn lemma_unit_product(x: int, y: int)
    requires
        0 <= x <= UNIT,
        0 <= y <= UNIT,
    ensures
        0 <= x * y <= 17179344900,
{
    assert(0 <= x * y <= 17179344900) by (nonlinear_arith)
        requires
            0 <= x <= UNIT,
            0 <= y <= UNIT,
    ;
}

/// A product is bounded by the product of the factors' bounds.
pub proof fn lemma_mul_bound_abs(x: int, y: int, bx: int, by: int)
    requires
        -bx <= x <= bx,
        -by <= y <= by,
        0 <= bx,
        0 <= by,
    ensures
        -(bx * by) <= x * y <= bx * by,
{
    assert(-(bx * by) <= x * y <= bx * by) by (nonlinear_arith)
        requires
            -bx <= x <= bx,
            -by <= y <= by,
            0 <= bx,
            0 <= by,
    ;
}

/// The floor of the square root, built up one step at a time.
pub open spec fn sqrt_floor(n: nat) -> nat
    decreases n,
{
    if n == 0 {
        0
    } else {
        let s = sqrt_floor((n - 1) as nat);
        if (s + 1) * (s + 1) <= n {
            s + 1
        } else {
            s
        }
    }
}

/// `sqrt_floor(n)` squares to at most `n`, and one more squares past it.
pub proof fn lemma_sqrt_floor(n: nat)
    ensures
        sqrt_floor(n) * sqrt_floor(n) <= n,
        n < (sqrt_floor(n) + 1) * (sqrt_floor(n) + 1),
    decreases n,
{
    if n > 0 {
        lemma_sqrt_floor((n - 1) as nat);
        let s = sqrt_floor((n - 1) as nat);
        if (s + 1) * (s + 1) <= n {
            assert(sqrt_floor(n) == s + 1);
            assert(n - 1 < (s + 1) * (s + 1));
            assert((s + 1) * (s + 1) < (s + 2) * (s + 2)) by (nonlinear_arith);
            assert(n < (s + 2) * (s + 2));
            assert((sqrt_floor(n) + 1) * (sqrt_floor(n) + 1) == (s + 2) * (s + 2))
                by (nonlinear_arith)
                requires
                    sqrt_floor(n) == s + 1,
            ;
        } else {
            assert(sqrt_floor(n) == s);
            assert(s * s <= n - 1);
            assert((sqrt_floor(n) + 1) * (sqrt_floor(n) + 1) == (s + 1) * (s + 1))
                by (nonlinear_arith)
                requires
                    sqrt_floor(n) == s,
            ;
        }
    } else {
        assert(n == 0);
        assert(sqrt_floor(0) == 0);
        assert((sqrt_floor(n) + 1) * (sqrt_floor(n) + 1) == 1) by (nonlinear_arith)
            requires
                sqrt_floor(n) == 0,
        ;
    }
}

/// Any value whose square brackets `n` is the floor square root of `n`.
pub proof fn lemma_sqrt_floor_unique(n: nat, r: nat)
    requires
        r * r <= n,
        n < (r + 1) * (r + 1),
    ensures
        r == sqrt_floor(n),
{
    let s = sqrt_floor(n);
    lemma_sqrt_floor(n);
    if r < s {
        assert((r + 1) * (r + 1) <= s * s) by (nonlinear_arith)
            requires
                r < s,
        ;
    }
    if s < r {
        assert((s + 1) * (s + 1) <= r * r) by (nonlinear_arith)
            requires
                s < r,
        ;
    }
}

/// The floor square root, by binary search over a fixed-width range.
pub fn isqrt64(n: u64) -> (r: u64)
    requires
        n < 0x4_0000_0000,
    ensures
        r == sqrt_floor(n as nat),
        r < 0x20000,
{
    let mut lo: u64 = 0;
    let mut hi: u64 = 0x20000;
    proof {
        assert(0x20000u64 * 0x20000u64 == 0x4_0000_0000) by (nonlinear_arith);
    }
    while lo + 1 < hi
        invariant
            lo < hi <= 0x20000,
            lo * lo <= n,
            n < hi * hi,
        decreases hi - lo,
    {
        let mid: u64 = (lo + hi) / 2;
        proof {
            assert(mid * mid <= 0x20000u64 * 0x20000u64) by (nonlinear_arith)
                requires
                    mid <= 0x20000u64,
            ;
        }
        if mid * mid <= n {
            lo = mid;
        } else {
            hi = mid;
        }
    }
    proof {
        lemma_sqrt_floor_unique(n as nat, lo as nat);
    }
    lo
}

} // verus!
