//! Two-dimensional fixed-point vectors.
//!
//! A [`Vec2`] holds fixed-point components (see [`crate::fixed`]). The two
//! central operations are [`normalize_to`], which rescales a nonzero vector
//! to a target magnitude, and [`limit`], which clamps a vector's magnitude.
//! Both are proved to keep the squared magnitude within the square of the
//! bound, which is what the speed and force bounds of the engine rest on.

use vstd::prelude::*;

use crate::fixed::{
    abs64, abs_i, ceil_sqrt, csqrt, lemma_abs_mul, lemma_csqrt_side, lemma_scale_le, muldiv_trunc,
    sdivq,
};

verus! {

/// A 2-d vector of fixed-point scalars.
#[derive(Clone, Copy, Debug, PartialEq, Eq, Structural)]
pub struct Vec2 {
    pub x: i64,
    pub y: i64,
}

/// Squared magnitude.
pub open spec fn m2(x: int, y: int) -> int {
    x * x + y * y
}

/// The component bound under which all vector arithmetic here is exact.
pub const COMP_BOUND: i64 = 0x4000000000000000;

/// `v` rescaled to magnitude `m`, component-wise: `v * m / |v|` with the
/// ceiling square root as the length and truncation toward zero.
pub open spec fn sp_norm(vx: int, vy: int, m: int) -> (int, int) {
    let l = csqrt(m2(vx, vy));
    (sdivq(vx * m, l), sdivq(vy * m, l))
}

/// `v` unchanged if its magnitude is within `max`, else rescaled to `max`.
pub open spec fn sp_limit(vx: int, vy: int, max: int) -> (int, int) {
    if m2(vx, vy) > max * max {
        sp_norm(vx, vy, max)
    } else {
        (vx, vy)
    }
}

/// Squared magnitude, exactly, without overflow.
pub fn mag2_u(x: i64, y: i64) -> (r: u128)
    ensures
        r as int == m2(x as int, y as int),
{
    let ux: u64 = abs64(x);
    let uy: u64 = abs64(y);
    proof {
        assert((ux as int) * (ux as int) <= 0x40000000000000000000000000000000
            && (uy as int) * (uy as int) <= 0x40000000000000000000000000000000)
            by (nonlinear_arith)
            requires
                0 <= ux as int <= 0x8000000000000000,
                0 <= uy as int <= 0x8000000000000000,
        ;
        lemma_abs_mul(x as int, x as int);
        lemma_abs_mul(y as int, y as int);
        assert(x as int * x as int >= 0 && y as int * y as int >= 0) by (nonlinear_arith);
    }
    (ux as u128) * (ux as u128) + (uy as u128) * (uy as u128)
}

/// The squared magnitude of the truncated rescaling stays within `m * m`.
pub proof fn lemma_norm_bound(vx: int, vy: int, m: int, l: int)
    requires
        1 <= l,
        l * l >= m2(vx, vy),
        0 <= m,
    ensures
        abs_i(sdivq(vx * m, l)) <= m,
        abs_i(sdivq(vy * m, l)) <= m,
        m2(sdivq(vx * m, l), sdivq(vy * m, l)) <= m * m,
{
    assert(vx * vx >= 0 && vy * vy >= 0) by (nonlinear_arith);
    assert(l * l >= 1) by (nonlinear_arith)
        requires
            l >= 1,
    ;
    let qx = lemma_scaled_side(vx, m, l);
    let qy = lemma_scaled_side(vy, m, l);
    assert(qx * qx * (l * l) + qy * qy * (l * l) <= (vx * vx + vy * vy) * (m * m))
        by (nonlinear_arith)
        requires
            qx * qx * (l * l) <= (vx * vx) * (m * m),
            qy * qy * (l * l) <= (vy * vy) * (m * m),
    ;
    assert((vx * vx + vy * vy) * (m * m) <= (l * l) * (m * m)) by (nonlinear_arith)
        requires
            vx * vx + vy * vy <= l * l,
            m * m >= 0,
    ;
    assert(qx * qx + qy * qy <= m * m) by (nonlinear_arith)
        requires
            qx * qx * (l * l) + qy * qy * (l * l) <= (l * l) * (m * m),
            l * l >= 1,
    ;
}

/// One component of the rescaling: `|sdivq(x * m, l)| <= m` and the squared
/// component, scaled back by `l * l`, stays under `x * x * m * m`. Returns
/// the component's absolute value.
proof fn lemma_scaled_side(x: int, m: int, l: int) -> (q: int)
    requires
        1 <= l,
        l * l >= x * x,
        0 <= m,
    ensures
        q == abs_i(sdivq(x * m, l)),
        q <= m,
        q * q * (l * l) <= (x * x) * (m * m),
        sdivq(x * m, l) * sdivq(x * m, l) == q * q,
{
    let ax = abs_i(x);
    assert(ax * ax == x * x) by (nonlinear_arith)
        requires
            ax == abs_i(x),
    ;
    lemma_csqrt_side(x, 0, l);
    let d = ax * m;
    let q = d / l;
    lemma_abs_mul(x, m);
    assert(abs_i(sdivq(x * m, l)) == q) by {
        if x * m >= 0 {
            assert(abs_i(x * m) == x * m);
            assert(sdivq(x * m, l) == (x * m) / l);
            assert((x * m) / l >= 0) by (nonlinear_arith)
                requires
                    x * m >= 0,
                    l >= 1,
            ;
        } else {
            assert(sdivq(x * m, l) == -((-(x * m)) / l));
            assert((-(x * m)) / l >= 0) by (nonlinear_arith)
                requires
                    -(x * m) >= 0,
                    l >= 1,
            ;
        }
    }
    lemma_scale_le(ax, m, l);
    vstd::arithmetic::div_mod::lemma_fundamental_div_mod(d, l);
    assert(q * l <= d);
    assert(q * l >= 0) by (nonlinear_arith)
        requires
            q >= 0,
            l >= 1,
    ;
    assert((q * l) * (q * l) <= d * d) by (nonlinear_arith)
        requires
            0 <= q * l <= d,
    ;
    assert((q * l) * (q * l) == q * q * (l * l)) by (nonlinear_arith);
    assert(d * d == (ax * ax) * (m * m)) by (nonlinear_arith)
        requires
            d == ax * m,
    ;
    assert(sdivq(x * m, l) * sdivq(x * m, l) == q * q) by (nonlinear_arith)
        requires
            abs_i(sdivq(x * m, l)) == q,
    ;
    q
}

/// Rescale a nonzero vector to magnitude `m` (truncating). The result's
/// magnitude never exceeds `m`.
pub fn normalize_to(v: Vec2, m: i64) -> (r: Vec2)
    requires
        0 <= m <= COMP_BOUND,
        abs_i(v.x as int) <= COMP_BOUND,
        abs_i(v.y as int) <= COMP_BOUND,
        m2(v.x as int, v.y as int) > 0,
    ensures
        (r.x as int, r.y as int) == sp_norm(v.x as int, v.y as int, m as int),
        m2(r.x as int, r.y as int) <= (m as int) * (m as int),
        abs_i(r.x as int) <= m as int,
        abs_i(r.y as int) <= m as int,
{
    let mag: u128 = mag2_u(v.x, v.y);
    proof {
        assert(m2(v.x as int, v.y as int) <= 0x40000000000000000000000000000000)
            by (nonlinear_arith)
            requires
                abs_i(v.x as int) <= 0x4000000000000000,
                abs_i(v.y as int) <= 0x4000000000000000,
        ;
    }
    let l: u64 = ceil_sqrt(mag);
    proof {
        assert(l >= 1) by (nonlinear_arith)
            requires
                l >= 0,
                (l as int) * (l as int) >= mag as int,
                mag >= 1,
        ;
        crate::fixed::lemma_csqrt_of(mag as int, l as int);
        lemma_norm_bound(v.x as int, v.y as int, m as int, l as int);
        lemma_csqrt_side(v.x as int, v.y as int, l as int);
        lemma_csqrt_side(v.y as int, v.x as int, l as int);
        lemma_abs_mul(v.x as int, m as int);
        lemma_abs_mul(v.y as int, m as int);
        lemma_scale_le(abs_i(v.x as int), m as int, l as int);
        lemma_scale_le(abs_i(v.y as int), m as int, l as int);
    }
    let nx: i64 = muldiv_trunc(v.x, m, l);
    let ny: i64 = muldiv_trunc(v.y, m, l);
    Vec2 { x: nx, y: ny }
}

/// Clamp a vector to magnitude at most `max`: the vector comes back
/// unchanged when already within the bound, else rescaled to it.
pub fn limit(v: Vec2, max: i64) -> (r: Vec2)
    requires
        0 <= max <= COMP_BOUND,
        abs_i(v.x as int) <= COMP_BOUND,
        abs_i(v.y as int) <= COMP_BOUND,
    ensures
        (r.x as int, r.y as int) == sp_limit(v.x as int, v.y as int, max as int),
        m2(r.x as int, r.y as int) <= (max as int) * (max as int),
        abs_i(r.x as int) <= max as int,
        abs_i(r.y as int) <= max as int,
{
    let mag: u128 = mag2_u(v.x, v.y);
    proof {
        assert((max as int) * (max as int) <= 0x10000000000000000000000000000000)
            by (nonlinear_arith)
            requires
                0 <= max as int <= 0x4000000000000000,
        ;
    }
    let maxsq: u128 = (max as u128) * (max as u128);
    if mag > maxsq {
        proof {
            assert(m2(v.x as int, v.y as int) > 0);
        }
        normalize_to(v, max)
    } else {
        proof {
            lemma_m2_side(v.x as int, v.y as int, max as int);
        }
        v
    }
}

/// If the squared magnitude is within `max * max` then so is each component.
pub proof fn lemma_m2_side(x: int, y: int, max: int)
    requires
        m2(x, y) <= max * max,
        max >= 0,
    ensures
        abs_i(x) <= max,
        abs_i(y) <= max,
{
    assert(abs_i(x) <= max && abs_i(y) <= max) by (nonlinear_arith)
        requires
            x * x + y * y <= max * max,
            max >= 0,
    ;
}

} // verus!
