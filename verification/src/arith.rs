//! Integer division helpers and the facts about them that the timeline relies on.
use vstd::arithmetic::div_mod::*;
use vstd::prelude::*;

verus! {

/// The smallest integer at or above `n / d`, for a positive `d`.
pub open spec fn ceil_div_spec(n: int, d: int) -> int {
    if n % d == 0 {
        n / d
    } else {
        n / d + 1
    }
}

/// Whatever a positive divisor, the floor quotient lies between the dividend and zero.
pub proof fn lemma_div_between(n: int, d: int)
    requires
        d > 0,
    ensures
        n >= 0 ==> 0 <= n / d <= n,
        n < 0 ==> n <= n / d < 0,
{
    lemma_fundamental_div_mod(n, d);
    lemma_mod_bound(n, d);
    let q = n / d;
    let r = n % d;
    if n >= 0 {
        assert(0 <= q <= n) by (nonlinear_arith)
            requires
                n == d * q + r,
                0 <= r < d,
                n >= 0,
        ;
    } else {
        assert(n <= q < 0) by (nonlinear_arith)
            requires
                n == d * q + r,
                0 <= r < d,
                n < 0,
        ;
    }
}

/// The ceiling quotient is the least `c` with `c * d >= n`.
pub proof fn lemma_ceil_div(n: int, d: int)
    requires
        d > 0,
    ensures
        ceil_div_spec(n, d) * d >= n,
        (ceil_div_spec(n, d) - 1) * d < n,
        n >= 0 ==> ceil_div_spec(n, d) >= 0,
        n > 0 ==> ceil_div_spec(n, d) >= 1,
{
    lemma_fundamental_div_mod(n, d);
    lemma_mod_bound(n, d);
    let q = n / d;
    let r = n % d;
    let c = ceil_div_spec(n, d);
    if r == 0 {
        assert(c * d >= n && (c - 1) * d < n) by (nonlinear_arith)
            requires
                n == d * q + r,
                r == 0,
                c == q,
                d > 0,
        ;
    } else {
        assert(c * d >= n && (c - 1) * d < n) by (nonlinear_arith)
            requires
                n == d * q + r,
                0 < r < d,
                c == q + 1,
                d > 0,
        ;
    }
    if n >= 0 {
        lemma_div_between(n, d);
    }
    if n > 0 {
        assert(c >= 1) by (nonlinear_arith)
            requires
                c * d >= n,
                n > 0,
                d > 0,
        ;
    }
}

/// Adding whole multiples of the divisor shifts the ceiling quotient by as many.
pub proof fn lemma_ceil_div_shift(k: int, y: int, d: int)
    requires
        d > 0,
    ensures
        ceil_div_spec(k * d + y, d) == k + ceil_div_spec(y, d),
{
    lemma_fundamental_div_mod(y, d);
    lemma_mod_bound(y, d);
    let qy = y / d;
    let ry = y % d;
    assert(k * d + y == (k + qy) * d + ry) by (nonlinear_arith)
        requires
            y == d * qy + ry,
    ;
    lemma_fundamental_div_mod_converse(k * d + y, d, k + qy, ry);
}

/// Returns `n / d` rounded down, for a positive `d`.
pub fn floor_div(n: i128, d: i128) -> (q: i128)
    requires
        d > 0,
    ensures
        q == n / d,
{
    proof {
        lemma_div_between(n as int, d as int);
    }
    match n.checked_div_euclid(d) {
        Some(q) => q,
        None => 0,
    }
}

/// Returns the remainder of `n / d` rounded down, for a positive `d`.
pub fn floor_mod(n: i128, d: i128) -> (r: i128)
    requires
        d > 0,
    ensures
        r == n % d,
        0 <= r < d,
{
    proof {
        lemma_mod_bound(n as int, d as int);
    }
    match n.checked_rem_euclid(d) {
        Some(r) => r,
        None => 0,
    }
}

/// Returns `n / d` rounded up, for a positive `d`.
pub fn ceil_div(n: i128, d: i128) -> (q: i128)
    requires
        d > 0,
    ensures
        q == ceil_div_spec(n as int, d as int),
{
    proof {
        lemma_div_between(n as int, d as int);
    }
    let q = floor_div(n, d);
    let r = floor_mod(n, d);
    if r != 0 {
        proof {
            lemma_fundamental_div_mod(n as int, d as int);
            assert(q < i128::MAX) by (nonlinear_arith)
                requires
                    n == d * q + r,
                    0 < r,
                    d >= 1,
                    n <= i128::MAX,
            ;
        }
        q + 1
    } else {
        q
    }
}

} // verus!
