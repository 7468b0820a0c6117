//! Grid sizing.
//!
//! The agent store is indexed as a `dim_x * dim_y` grid. Given a desired
//! agent count and the simulation extents, [`grid_size`] picks the dimensions
//! by the rounding rule `dim_x = ceil(sqrt(count * width / height))` and
//! `dim_y = ceil(sqrt(count * height / width))`, whose product always covers
//! the desired count.

use vstd::prelude::*;

use crate::fixed::{ceil_sqrt, csqrt, is_csqrt, lemma_csqrt_of};

verus! {

/// Largest simulation extent (fixed-point): 16384.0 units.
pub const MAX_EXTENT: i64 = 0x1000000;

/// Largest supported agent count.
pub const MAX_BOIDS: u32 = 1048576;

/// Largest width:height (or height:width) ratio the grid supports.
pub const ASPECT_LIMIT: i64 = 1024;

/// Ceiling division for nonnegative operands.
pub open spec fn ceil_div(a: int, b: int) -> int {
    (a + b - 1) / b
}

/// The extents and count accepted by [`grid_size`] (and by the flocking
/// system): positive extents within [`MAX_EXTENT`], an aspect ratio within
/// [`ASPECT_LIMIT`], and a count within [`MAX_BOIDS`].
pub open spec fn grid_inputs_ok(width: int, height: int, count: int) -> bool {
    &&& 1 <= width <= MAX_EXTENT as int
    &&& 1 <= height <= MAX_EXTENT as int
    &&& width <= ASPECT_LIMIT as int * height
    &&& height <= ASPECT_LIMIT as int * width
    &&& 0 <= count <= MAX_BOIDS as int
}

/// The grid dimension along one axis: the ceiling square root of the count
/// scaled by the aspect ratio toward that axis.
pub open spec fn sp_dim(count: int, this_extent: int, other_extent: int) -> int {
    csqrt(ceil_div(count * this_extent, other_extent))
}

/// Ceiling division covers the quotient: `ceil_div(a, b) * b >= a`.
proof fn lemma_ceil_div_covers(a: int, b: int)
    requires
        a >= 0,
        b >= 1,
    ensures
        ceil_div(a, b) >= 0,
        ceil_div(a, b) * b >= a,
{
    let q = (a + b - 1) / b;
    vstd::arithmetic::div_mod::lemma_fundamental_div_mod(a + b - 1, b);
    assert(q * b == a + b - 1 - ((a + b - 1) % b));
    assert(0 <= (a + b - 1) % b < b) by {
        vstd::arithmetic::div_mod::lemma_mod_bound(a + b - 1, b);
    }
    assert(q >= 0) by (nonlinear_arith)
        requires
            q * b >= a + b - 1 - (b - 1),
            a >= 0,
            b >= 1,
    ;
}

/// Ceiling division is monotone in the dividend.
proof fn lemma_ceil_div_mono(a1: int, a2: int, b: int)
    requires
        0 <= a1 <= a2,
        b >= 1,
    ensures
        ceil_div(a1, b) <= ceil_div(a2, b),
{
    vstd::arithmetic::div_mod::lemma_div_is_ordered(a1 + b - 1, a2 + b - 1, b);
}

/// Compute the grid dimensions for a desired agent count: the smallest
/// square-root rounding of the count scaled by the aspect ratio, so that
/// `dim_x * dim_y >= desired_count` always holds.
pub fn grid_size(width: i64, height: i64, desired_count: u32) -> (dims: (usize, usize))
    requires
        grid_inputs_ok(width as int, height as int, desired_count as int),
    ensures
        dims.0 as int == sp_dim(desired_count as int, width as int, height as int),
        dims.1 as int == sp_dim(desired_count as int, height as int, width as int),
        is_csqrt(ceil_div(desired_count as int * width as int, height as int), dims.0 as int),
        is_csqrt(ceil_div(desired_count as int * height as int, width as int), dims.1 as int),
        dims.0 as int * dims.1 as int >= desired_count as int,
        dims.0 <= 32768,
        dims.1 <= 32768,
        desired_count > 0 ==> dims.0 >= 1 && dims.1 >= 1,
{
    let c: u128 = desired_count as u128;
    let w: u128 = width as u128;
    let h: u128 = height as u128;
    proof {
        assert(c * w <= 0x100000000000 && c * h <= 0x100000000000) by (nonlinear_arith)
            requires
                c <= 0x100000,
                1 <= w <= 0x1000000,
                1 <= h <= 0x1000000,
        ;
    }
    let rx: u128 = (c * w + h - 1) / h;
    let ry: u128 = (c * h + w - 1) / w;
    proof {
        lemma_ceil_div_covers(c as int * w as int, h as int);
        lemma_ceil_div_covers(c as int * h as int, w as int);
        assert(c as int * w as int <= c as int * (1024 * h as int)) by (nonlinear_arith)
            requires
                w as int <= 1024 * h as int,
                c >= 0,
        ;
        assert(c as int * (1024 * h as int) == (1024 * c as int) * h as int)
            by (nonlinear_arith);
        lemma_ceil_div_mono(c as int * w as int, (1024 * c as int) * h as int, h as int);
        assert(ceil_div((1024 * c as int) * h as int, h as int) == 1024 * c as int) by {
            vstd::arithmetic::div_mod::lemma_fundamental_div_mod_converse(
                (1024 * c as int) * h as int + h as int - 1,
                h as int,
                1024 * c as int,
                h as int - 1,
            );
        }
        assert(c as int * h as int <= (1024 * c as int) * w as int) by (nonlinear_arith)
            requires
                h as int <= 1024 * w as int,
                c >= 0,
        ;
        lemma_ceil_div_mono(c as int * h as int, (1024 * c as int) * w as int, w as int);
        assert(ceil_div((1024 * c as int) * w as int, w as int) == 1024 * c as int) by {
            vstd::arithmetic::div_mod::lemma_fundamental_div_mod_converse(
                (1024 * c as int) * w as int + w as int - 1,
                w as int,
                1024 * c as int,
                w as int - 1,
            );
        }
        assert(rx as int <= 1024 * c as int && ry as int <= 1024 * c as int);
    }
    let dx: u64 = ceil_sqrt(rx);
    let dy: u64 = ceil_sqrt(ry);
    proof {
        lemma_csqrt_of(rx as int, dx as int);
        lemma_csqrt_of(ry as int, dy as int);
        lemma_dim_small(rx as int, dx as int);
        lemma_dim_small(ry as int, dy as int);
        lemma_product_covers(
            desired_count as int,
            w as int,
            h as int,
            rx as int,
            ry as int,
            dx as int,
            dy as int,
        );
    }
    (dx as usize, dy as usize)
}

/// A dimension computed from a bounded rounding input is itself small.
proof fn lemma_dim_small(r: int, d: int)
    requires
        is_csqrt(r, d),
        r <= 0x40000000,
    ensures
        d <= 32768,
{
    if d > 32768 {
        assert((d - 1) * (d - 1) >= 32768 * 32768) by (nonlinear_arith)
            requires
                d - 1 >= 32768,
        ;
        assert(false);
    }
}

/// The product of the two rounded dimensions covers the desired count.
proof fn lemma_product_covers(c: int, w: int, h: int, rx: int, ry: int, dx: int, dy: int)
    requires
        c >= 0,
        w >= 1,
        h >= 1,
        rx >= 0,
        ry >= 0,
        rx * h >= c * w,
        ry * w >= c * h,
        is_csqrt(rx, dx),
        is_csqrt(ry, dy),
    ensures
        dx * dy >= c,
        c > 0 ==> dx >= 1 && dy >= 1,
{
    assert(h * w >= 1 && c * w >= 0 && c * h >= 0) by (nonlinear_arith)
        requires
            h >= 1,
            w >= 1,
            c >= 0,
    ;
    assert((rx * h) * (ry * w) >= (c * w) * (c * h)) by (nonlinear_arith)
        requires
            0 <= c * w <= rx * h,
            0 <= c * h <= ry * w,
    ;
    assert((rx * ry) * (h * w) >= (c * c) * (h * w)) by (nonlinear_arith)
        requires
            (rx * h) * (ry * w) >= (c * w) * (c * h),
    ;
    assert(rx * ry >= c * c) by (nonlinear_arith)
        requires
            (rx * ry) * (h * w) >= (c * c) * (h * w),
            h * w >= 1,
    ;
    assert((dx * dx) * (dy * dy) >= rx * ry) by (nonlinear_arith)
        requires
            dx * dx >= rx,
            dy * dy >= ry,
            rx >= 0,
            ry >= 0,
            dx >= 0,
            dy >= 0,
    ;
    assert((dx * dy) * (dx * dy) >= c * c) by (nonlinear_arith)
        requires
            (dx * dx) * (dy * dy) >= c * c,
    ;
    assert(dx * dy >= c) by (nonlinear_arith)
        requires
            (dx * dy) * (dx * dy) >= c * c,
            dx * dy >= 0,
            c >= 0,
    ;
    if c > 0 {
        assert(dx >= 1 && dy >= 1) by (nonlinear_arith)
            requires
                dx * dy >= c,
                c > 0,
                dx >= 0,
                dy >= 0,
        ;
    }
}

} // verus!
