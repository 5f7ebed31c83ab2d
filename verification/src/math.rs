//! Facts of integer arithmetic that the pool's contracts rest on.
use vstd::prelude::*;
use vstd::arithmetic::div_mod::{lemma_fundamental_div_mod, lemma_mod_bound};

verus! {

/// Floor division bracketed by the divisor's multiples.
pub proof fn lemma_div_bounds(n: int, d: int)
    requires
        n >= 0,
        d > 0,
    ensures
        n / d >= 0,
        d * (n / d) <= n,
        n < d * (n / d) + d,
{
    lemma_fundamental_div_mod(n, d);
    lemma_mod_bound(n, d);
    assert(n / d >= 0) by (nonlinear_arith)
        requires
            n >= 0,
            d > 0,
            n == d * (n / d) + n % d,
            n % d < d,
    {}
}

/// A quotient is at most any bound whose multiple covers the dividend.
pub proof fn lemma_div_at_most(n: int, d: int, b: int)
    requires
        n >= 0,
        d > 0,
        n <= d * b,
    ensures
        n / d <= b,
{
    lemma_div_bounds(n, d);
    let q = n / d;
    if q > b {
        assert(d * (b + 1) <= d * q) by (nonlinear_arith)
            requires
                d > 0,
                b + 1 <= q,
        {}
        assert(false) by (nonlinear_arith)
            requires
                d * (b + 1) <= d * q,
                d * q <= n,
                n <= d * b,
                d > 0,
        {}
    }
}

/// A quotient is at least any number whose multiple fits in the dividend.
pub proof fn lemma_div_at_least(n: int, d: int, b: int)
    requires
        n >= 0,
        d > 0,
        d * b <= n,
    ensures
        b <= n / d,
{
    lemma_div_bounds(n, d);
    let q = n / d;
    if q < b {
        assert(d * (q + 1) <= d * b) by (nonlinear_arith)
            requires
                d > 0,
                q + 1 <= b,
        {}
        assert(false) by (nonlinear_arith)
            requires
                d * (q + 1) <= d * b,
                d * b <= n,
                n < d * q + d,
        {}
    }
}

/// `k` is at most `n / d` exactly when `k * d` is at most `n`.
pub proof fn lemma_le_quotient_iff(n: int, d: int, k: int)
    requires
        n >= 0,
        d > 0,
    ensures
        k <= n / d <==> k * d <= n,
{
    lemma_div_bounds(n, d);
    let q = n / d;
    if k <= q {
        assert(k * d <= n) by (nonlinear_arith)
            requires
                k <= q,
                d > 0,
                d * q <= n,
        {}
    } else {
        assert(k * d > n) by (nonlinear_arith)
            requires
                k >= q + 1,
                d > 0,
                n < d * q + d,
        {}
    }
}

/// A quotient is below any bound whose multiple exceeds the dividend.
pub proof fn lemma_div_below(n: int, d: int, b: int)
    requires
        n >= 0,
        d > 0,
        n < d * b,
    ensures
        n / d < b,
{
    lemma_div_bounds(n, d);
    let q = n / d;
    if q >= b {
        assert(d * b <= d * q) by (nonlinear_arith)
            requires
                d > 0,
                b <= q,
        {}
    }
}

/// A product of two bounded factors is bounded by the product of the bounds.
pub proof fn lemma_mul_le(a: int, b: int, c: int, d: int)
    requires
        0 <= a <= c,
        0 <= b <= d,
    ensures
        a * b <= c * d,
        0 <= a * b,
{
    assert(a * b <= c * d && 0 <= a * b) by (nonlinear_arith)
        requires
            0 <= a <= c,
            0 <= b <= d,
    {}
}

} // verus!
