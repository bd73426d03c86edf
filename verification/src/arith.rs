//! Integer division that rounds: to the floor, and to the nearest integer.

use vstd::prelude::*;
use vstd::arithmetic::div_mod::{lemma_fundamental_div_mod, lemma_fundamental_div_mod_converse};

verus! {

/// The integer nearest to `n / d`, for positive `d`; a value half-way
/// between two integers goes to the greater.
pub open spec fn nearest(n: int, d: int) -> int {
    (2 * n + d) / (2 * d)
}

/// The nearest integer to `n / d` lies between any two integers that
/// `n / d` lies between.
pub proof fn nearest_between(n: int, d: int, lo: int, hi: int)
    requires
        d > 0,
        lo * d <= n <= hi * d,
    ensures
        lo <= nearest(n, d) <= hi,
{
    let x = 2 * n + d;
    let m = 2 * d;
    let q = x / m;
    lemma_fundamental_div_mod(x, m);
    assert(x == m * q + x % m);
    assert(0 <= x % m < m);
    assert(q >= lo) by (nonlinear_arith)
        requires
            m * q + m > 2 * n + d,
            lo * d <= n,
            m == 2 * d,
            d > 0,
    ;
    assert(q <= hi) by (nonlinear_arith)
        requires
            m * q <= 2 * n + d,
            n <= hi * d,
            m == 2 * d,
            d > 0,
    ;
}

/// Whether `v` lies no more than a half from `n / d`, for positive `d`.
pub open spec fn near(v: int, n: int, d: int) -> bool {
    -d <= 2 * (v * d - n) <= d
}

/// The integer nearest to `n / d` lies no more than a half from it.
pub proof fn nearest_is_near(n: int, d: int)
    requires
        d > 0,
    ensures
        near(nearest(n, d), n, d),
{
    let x = 2 * n + d;
    let m = 2 * d;
    let q = x / m;
    lemma_fundamental_div_mod(x, m);
    assert(x == m * q + x % m);
    assert(0 <= x % m < m);
    assert(2 * (q * d - n) == d - x % m) by (nonlinear_arith)
        requires
            2 * n + d == (2 * d) * q + x % m,
    ;
}

/// Division rounded towards negative infinity.
pub fn floor_div(n: i128, d: i128) -> (q: i128)
    requires
        d > 0,
        n > i128::MIN,
    ensures
        q == n / d,
{
    if n >= 0 {
        n / d
    } else {
        let m: i128 = -n;
        let q0: i128 = m / d;
        let r0: i128 = m % d;
        proof {
            lemma_fundamental_div_mod(m as int, d as int);
            assert(0 <= q0 <= m) by (nonlinear_arith)
                requires
                    m == d * q0 + r0,
                    0 <= r0 < d,
                    m > 0,
            ;
        }
        if r0 == 0 {
            proof {
                assert(n == (-q0) * d + 0) by (nonlinear_arith)
                    requires
                        -n == d * q0,
                ;
                lemma_fundamental_div_mod_converse(n as int, d as int, -q0, 0);
            }
            -q0
        } else {
            proof {
                assert(n == (-q0 - 1) * d + (d - r0)) by (nonlinear_arith)
                    requires
                        -n == d * q0 + r0,
                ;
                lemma_fundamental_div_mod_converse(n as int, d as int, -q0 - 1, d - r0);
            }
            -q0 - 1
        }
    }
}

/// Division rounded to the nearest integer, halves upwards.
pub fn round_div(n: i128, d: i128) -> (q: i128)
    requires
        0 < d <= 0x1000_0000_0000_0000_0000_0000_0000,
        -0x1000_0000_0000_0000_0000_0000_0000 <= n <= 0x1000_0000_0000_0000_0000_0000_0000,
    ensures
        q == nearest(n as int, d as int),
{
    floor_div(2 * n + d, 2 * d)
}

} // verus!
