//! Whole numbers: magnitudes, products that do not overflow, quotients that
//! round down, and integer square roots.

use vstd::prelude::*;

verus! {

/// The absolute value of `p`.
pub open spec fn magnitude(p: int) -> int {
    if p < 0 {
        -p
    } else {
        p
    }
}

/// How many integers lie in `lo..=hi`.
pub open spec fn span(lo: int, hi: int) -> nat {
    if hi < lo {
        0
    } else {
        (hi - lo + 1) as nat
    }
}

/// Whether `v` fits a 64-bit signed integer.
pub open spec fn fits(v: int) -> bool {
    i64::MIN <= v <= i64::MAX
}

/// The product of two numbers of at most `m` and `n` in magnitude has at most
/// `m * n`.
pub proof fn lemma_product_bound(a: int, b: int, m: int, n: int)
    requires
        -m <= a <= m,
        -n <= b <= n,
    ensures
        -(m * n) <= a * b <= m * n,
{
    assert(-(m * n) <= a * b <= m * n) by (nonlinear_arith)
        requires
            -m <= a <= m,
            -n <= b <= n,
    ;
}

/// The product of two 64-bit numbers.
pub fn wide_product(a: i64, b: i64) -> (r: i128)
    ensures
        r == a * b,
{
    proof {
        lemma_product_bound(a as int, b as int, 0x8000_0000_0000_0000, 0x8000_0000_0000_0000);
        assert(0x8000_0000_0000_0000int * 0x8000_0000_0000_0000int
            == 0x4000_0000_0000_0000_0000_0000_0000_0000int) by (nonlinear_arith);
    }
    (a as i128) * (b as i128)
}

/// The quotient of `n` by a positive `d`, rounded down.
pub fn floor_div(n: i128, d: i128) -> (q: i128)
    requires
        d > 0,
    ensures
        q == n as int / d as int,
{
    if n >= 0 {
        n / d
    } else if n == i128::MIN {
        let m: i128 = i128::MAX;
        let q = m / d;
        let r = m % d;
        proof {
            vstd::arithmetic::div_mod::lemma_fundamental_div_mod(m as int, d as int);
            assert(d * q == q * d) by (nonlinear_arith);
            if r == d - 1 {
                assert((n as int) == (-q - 1) * d + 0) by (nonlinear_arith)
                    requires
                        m == q * d + r,
                        r == d - 1,
                        n == -m - 1,
                ;
                vstd::arithmetic::div_mod::lemma_fundamental_div_mod_converse(
                    n as int,
                    d as int,
                    -q - 1,
                    0,
                );
            } else {
                assert((n as int) == (-q - 1) * d + (d - r - 1)) by (nonlinear_arith)
                    requires
                        m == q * d + r,
                        n == -m - 1,
                ;
                vstd::arithmetic::div_mod::lemma_fundamental_div_mod_converse(
                    n as int,
                    d as int,
                    -q - 1,
                    d - r - 1,
                );
            }
        }
        -q - 1
    } else {
        let m: i128 = -n;
        let q = m / d;
        let r = m % d;
        proof {
            vstd::arithmetic::div_mod::lemma_fundamental_div_mod(m as int, d as int);
            assert(d * q == q * d) by (nonlinear_arith);
            if r == 0 {
                assert((n as int) == (-q) * d + 0) by (nonlinear_arith)
                    requires
                        m == q * d + r,
                        r == 0,
                        n == -m,
                ;
                vstd::arithmetic::div_mod::lemma_fundamental_div_mod_converse(
                    n as int,
                    d as int,
                    -q,
                    0,
                );
            } else {
                assert((n as int) == (-q - 1) * d + (d - r)) by (nonlinear_arith)
                    requires
                        m == q * d + r,
                        n == -m,
                ;
                vstd::arithmetic::div_mod::lemma_fundamental_div_mod_converse(
                    n as int,
                    d as int,
                    -q - 1,
                    d - r,
                );
            }
        }
        if r == 0 {
            -q
        } else {
            -q - 1
        }
    }
}

/// Whether `r` is the integer square root of `n`: the greatest number whose
/// square is at most `n`.
pub open spec fn is_integer_sqrt(n: int, r: int) -> bool {
    0 <= r && r * r <= n < (r + 1) * (r + 1)
}

/// The integer square root of `n`, for `n` that is not negative.
pub open spec fn root(n: int) -> int {
    choose|r: int| is_integer_sqrt(n, r)
}

/// A number has at most one integer square root.
pub proof fn lemma_root_unique(n: int, r: int)
    requires
        is_integer_sqrt(n, r),
    ensures
        r == root(n),
{
    let s = root(n);
    assert(is_integer_sqrt(n, s));
    if s < r {
        assert((s + 1) * (s + 1) <= r * r) by (nonlinear_arith)
            requires
                0 <= s + 1 <= r,
        ;
    }
    if r < s {
        assert((r + 1) * (r + 1) <= s * s) by (nonlinear_arith)
            requires
                0 <= r + 1 <= s,
        ;
    }
}

/// The integer square root of `n`.
pub fn integer_sqrt(n: u128) -> (r: u64)
    ensures
        is_integer_sqrt(n as int, r as int),
        r == root(n as int),
{
    let mut low: u128 = 0;
    let mut high: u128 = 0x1_0000_0000_0000_0000;
    assert(0x1_0000_0000_0000_0000int * 0x1_0000_0000_0000_0000int
        == 0x1_0000_0000_0000_0000_0000_0000_0000_0000int) by (nonlinear_arith);
    while high - low > 1
        invariant
            low < high <= 0x1_0000_0000_0000_0000,
            low * low <= n < high * high,
        decreases high - low,
    {
        let mid = low + (high - low) / 2;
        assert(mid * mid < 0x1_0000_0000_0000_0000_0000_0000_0000_0000) by (nonlinear_arith)
            requires
                mid < 0x1_0000_0000_0000_0000,
        ;
        if mid * mid <= n {
            low = mid;
        } else {
            high = mid;
        }
    }
    proof {
        lemma_root_unique(n as int, low as int);
    }
    low as u64
}

} // verus!
