//! Fixed-point scalar arithmetic.
//!
//! A scalar is an `i64` counting units of `1/FP_SCALE`. All higher layers
//! (vectors, forces, the integrator) are built from the operations here:
//! absolute value, truncated product-quotient, and a ceiling square root.

use vstd::prelude::*;

verus! {

/// Number of fixed-point units per simulation-space unit.
pub const FP_SCALE: i64 = 1024;

/// Mathematical absolute value.
pub open spec fn abs_i(a: int) -> int {
    if a >= 0 {
        a
    } else {
        -a
    }
}

/// Quotient truncated toward zero (for a nonnegative divisor).
pub open spec fn sdivq(a: int, b: int) -> int {
    if a >= 0 {
        a / b
    } else {
        -((-a) / b)
    }
}

/// `r` is the ceiling of the square root of `n`: the least nonnegative
/// integer whose square is at least `n`.
pub open spec fn is_csqrt(n: int, r: int) -> bool {
    &&& r >= 0
    &&& r * r >= n
    &&& r > 0 ==> (r - 1) * (r - 1) < n
}

/// The ceiling square root as a function (well defined by
/// [`lemma_csqrt_unique`]).
pub open spec fn csqrt(n: int) -> int {
    choose|r: int| is_csqrt(n, r)
}

/// Two ceiling square roots of the same number are equal.
pub proof fn lemma_csqrt_unique(n: int, a: int, b: int)
    requires
        is_csqrt(n, a),
        is_csqrt(n, b),
    ensures
        a == b,
{
    if a < b {
        assert(a <= b - 1);
        assert(a * a <= (b - 1) * (b - 1)) by (nonlinear_arith)
            requires
                0 <= a <= b - 1,
        ;
        assert(false);
    }
    if b < a {
        assert(b * b <= (a - 1) * (a - 1)) by (nonlinear_arith)
            requires
                0 <= b <= a - 1,
        ;
        assert(false);
    }
}

/// Any witness of [`is_csqrt`] is the value of [`csqrt`].
pub proof fn lemma_csqrt_of(n: int, r: int)
    requires
        is_csqrt(n, r),
    ensures
        csqrt(n) == r,
{
    assert(is_csqrt(n, csqrt(n))) by {
        assert(exists|x: int| is_csqrt(n, x));
    }
    lemma_csqrt_unique(n, csqrt(n), r);
}

/// Every nonnegative number has a ceiling square root, so [`csqrt`] itself
/// satisfies [`is_csqrt`].
pub proof fn lemma_csqrt_exists(n: int)
    requires
        n >= 0,
    ensures
        is_csqrt(n, csqrt(n)),
    decreases n,
{
    if n == 0 {
        assert(is_csqrt(0, 0));
        lemma_csqrt_of(0, 0);
    } else {
        lemma_csqrt_exists(n - 1);
        let r = csqrt(n - 1);
        if r * r >= n {
            assert(is_csqrt(n, r));
            lemma_csqrt_of(n, r);
        } else {
            assert(r * r == n - 1);
            assert((r + 1) * (r + 1) >= n) by (nonlinear_arith)
                requires
                    r * r == n - 1,
                    r >= 0,
            ;
            assert(is_csqrt(n, r + 1));
            lemma_csqrt_of(n, r + 1);
        }
    }
}

/// The ceiling square root dominates each side of a two-square sum:
/// if `l*l >= x*x + y*y` then `l >= |x|`.
pub proof fn lemma_csqrt_side(x: int, y: int, l: int)
    requires
        l >= 0,
        l * l >= x * x + y * y,
    ensures
        l >= abs_i(x),
{
    assert(y * y >= 0) by (nonlinear_arith);
    if l < abs_i(x) {
        assert(l * l < x * x) by (nonlinear_arith)
            requires
                0 <= l < abs_i(x),
        ;
        assert(false);
    }
}

/// Absolute value of an `i64`, exact even at the minimum value.
pub fn abs64(x: i64) -> (r: u64)
    ensures
        r as int == abs_i(x as int),
{
    if x >= 0 {
        x as u64
    } else {
        (-(x as i128)) as u64
    }
}

/// Ceiling square root of `n`, by binary search on the answer.
pub fn ceil_sqrt(n: u128) -> (r: u64)
    requires
        n <= 0x40000000000000000000000000000000,
    ensures
        is_csqrt(n as int, r as int),
        r as int == csqrt(n as int),
{
    let mut lo: u64 = 0;
    let mut hi: u64 = 0x8000000000000000;
    assert((hi as int) * (hi as int) >= n as int);
    while lo < hi
        invariant
            lo <= hi,
            hi <= 0x8000000000000000,
            (hi as int) * (hi as int) >= n as int,
            lo > 0 ==> ((lo - 1) as int) * ((lo - 1) as int) < n as int,
        decreases hi - lo,
    {
        let mid: u64 = lo + (hi - lo) / 2;
        proof {
            assert((mid as int) * (mid as int) <= 0x40000000000000000000000000000000)
                by (nonlinear_arith)
                requires
                    0 <= mid as int <= 0x8000000000000000,
            ;
        }
        let sq: u128 = (mid as u128) * (mid as u128);
        if sq >= n {
            hi = mid;
        } else {
            lo = mid + 1;
        }
    }
    proof {
        lemma_csqrt_of(n as int, lo as int);
    }
    lo
}

/// `(x * m) / l <= m` when `0 <= x <= l` and `m >= 0`: scaling by a factor
/// at most one cannot grow a value.
pub proof fn lemma_scale_le(x: int, m: int, l: int)
    requires
        0 <= x <= l,
        1 <= l,
        0 <= m,
    ensures
        0 <= (x * m) / l <= m,
{
    assert(x * m <= l * m) by (nonlinear_arith)
        requires
            0 <= x <= l,
            0 <= m,
    ;
    assert(x * m >= 0) by (nonlinear_arith)
        requires
            0 <= x,
            0 <= m,
    ;
    assert((x * m) / l >= 0) by (nonlinear_arith)
        requires
            x * m >= 0,
            l >= 1,
    ;
    assert((x * m) / l <= (l * m) / l) by (nonlinear_arith)
        requires
            x * m <= l * m,
            l >= 1,
    ;
    assert((l * m) / l == m) by (nonlinear_arith)
        requires
            l >= 1,
    ;
}

/// The absolute value of a product is the product of absolute values.
pub proof fn lemma_abs_mul(a: int, b: int)
    ensures
        abs_i(a) * abs_i(b) == abs_i(a * b),
{
    if a >= 0 && b >= 0 {
        assert(a * b >= 0) by (nonlinear_arith)
            requires
                a >= 0,
                b >= 0,
        ;
    } else if a >= 0 && b < 0 {
        assert(a * b <= 0 && a * (-b) == -(a * b)) by (nonlinear_arith)
            requires
                a >= 0,
                b < 0,
        ;
    } else if a < 0 && b >= 0 {
        assert(a * b <= 0 && (-a) * b == -(a * b)) by (nonlinear_arith)
            requires
                a < 0,
                b >= 0,
        ;
    } else {
        assert(a * b >= 0 && (-a) * (-b) == a * b) by (nonlinear_arith)
            requires
                a < 0,
                b < 0,
        ;
    }
}

/// Truncated `a * b / d`, computed without intermediate overflow.
pub fn muldiv_trunc(a: i64, b: i64, d: u64) -> (r: i64)
    requires
        d >= 1,
        abs_i(a as int) * abs_i(b as int) / (d as int) <= 0x7fffffffffffffff,
    ensures
        r as int == sdivq(a as int * b as int, d as int),
{
    let neg: bool = (a < 0) != (b < 0);
    let ua: u64 = abs64(a);
    let ub: u64 = abs64(b);
    proof {
        assert((ua as int) * (ub as int) <= 0x40000000000000000000000000000000)
            by (nonlinear_arith)
            requires
                0 <= ua as int <= 0x8000000000000000,
                0 <= ub as int <= 0x8000000000000000,
        ;
    }
    let m: u128 = (ua as u128) * (ub as u128);
    let q: u128 = m / (d as u128);
    proof {
        let ai = a as int;
        let bi = b as int;
        let p = ai * bi;
        lemma_abs_mul(ai, bi);
        assert(q as int == abs_i(p) / (d as int));
        assert(q <= 0x7fffffffffffffff);
        if p > 0 {
            assert(!((ai < 0) != (bi < 0))) by (nonlinear_arith)
                requires
                    ai * bi > 0,
            ;
            assert(abs_i(p) == p);
        } else if p < 0 {
            assert((ai < 0) != (bi < 0)) by (nonlinear_arith)
                requires
                    ai * bi < 0,
            ;
        } else {
            assert(q as int == 0);
        }
    }
    if neg {
        -(q as i64)
    } else {
        q as i64
    }
}

/// The magnitude of a truncated quotient: `|a / b| == |a| / b <= |a|`.
pub proof fn lemma_sdivq_abs(a: int, d: int)
    requires
        d >= 1,
    ensures
        abs_i(sdivq(a, d)) == abs_i(a) / d,
        abs_i(sdivq(a, d)) <= abs_i(a),
{
    if a >= 0 {
        assert(a / d >= 0) by (nonlinear_arith)
            requires
                a >= 0,
                d >= 1,
        ;
    } else {
        assert((-a) / d >= 0) by (nonlinear_arith)
            requires
                -a >= 0,
                d >= 1,
        ;
    }
    let q = abs_i(a) / d;
    vstd::arithmetic::div_mod::lemma_fundamental_div_mod(abs_i(a), d);
    assert(q <= abs_i(a)) by (nonlinear_arith)
        requires
            q >= 0,
            d >= 1,
            abs_i(a) == d * q + abs_i(a) % d,
            abs_i(a) % d >= 0,
    ;
}

/// Fixed-point product of two bounded scalars: `a * b / FP_SCALE`,
/// truncated toward zero.
pub fn mul_fp(a: i64, b: i64) -> (r: i64)
    requires
        abs_i(a as int) <= 0x1000000,
        abs_i(b as int) <= 0x1000000,
    ensures
        r as int == sdivq(a as int * b as int, 1024),
        abs_i(r as int) <= 0x4000000000,
{
    proof {
        lemma_abs_mul(a as int, b as int);
        assert(abs_i(a as int) * abs_i(b as int) <= 0x1000000000000) by (nonlinear_arith)
            requires
                0 <= abs_i(a as int) <= 0x1000000,
                0 <= abs_i(b as int) <= 0x1000000,
        ;
        vstd::arithmetic::div_mod::lemma_div_is_ordered(
            abs_i(a as int * b as int),
            0x1000000000000,
            1024,
        );
        lemma_sdivq_abs(a as int * b as int, 1024);
    }
    muldiv_trunc(a, b, 1024)
}

/// Truncated division of a scalar by a positive count.
pub fn div_trunc(a: i64, d: u64) -> (r: i64)
    requires
        d >= 1,
        abs_i(a as int) <= 0x7fffffffffffffff,
    ensures
        r as int == sdivq(a as int, d as int),
        abs_i(r as int) <= abs_i(a as int),
{
    proof {
        assert(a as int * 1 == a as int);
        lemma_sdivq_abs(a as int, d as int);
        assert(abs_i(1int) == 1);
        assert(abs_i(a as int) * abs_i(1int) == abs_i(a as int)) by (nonlinear_arith)
            requires
                abs_i(1int) == 1,
        ;
        assert(abs_i(a as int) / (d as int) <= abs_i(a as int));
    }
    muldiv_trunc(a, 1, d)
}

} // verus!
