//! The resize policy: an image whose sides both fit the dimension budget is
//! left alone; otherwise it is scaled down so that the longer side equals the
//! budget exactly and the shorter side is the nearest integer that keeps the
//! aspect ratio, never below one pixel.

use vstd::prelude::*;

verus! {

/// Both sides fit the dimension budget.
pub open spec fn within_budget(w: int, h: int, m: int) -> bool {
    w <= m && h <= m
}

/// The shorter side after scaling the longer side down to `m`: the nearest
/// integer to `short * m / long` (half rounds up), raised to at least 1.
pub open spec fn scaled_short_side(short: int, long: int, m: int) -> int {
    let q = (2 * short * m + long) / (2 * long);
    if q < 1 {
        1
    } else {
        q
    }
}

/// The dimensions an image of size `w` by `h` is resized to under budget `m`.
pub open spec fn spec_target_dims(w: int, h: int, m: int) -> (int, int) {
    if within_budget(w, h, m) {
        (w, h)
    } else if h <= w {
        (m, scaled_short_side(h, w, m))
    } else {
        (scaled_short_side(w, h, m), m)
    }
}

/// The scaled shorter side lies between 1 and the budget.
proof fn lemma_scaled_short_side_bounds(short: int, long: int, m: int)
    requires
        1 <= short,
        short <= long,
        1 <= m,
    ensures
        1 <= scaled_short_side(short, long, m),
        scaled_short_side(short, long, m) <= m,
{
    let d = 2 * long;
    let x = 2 * short * m + long;
    let q = x / d;
    vstd::arithmetic::div_mod::lemma_fundamental_div_mod(x, d);
    vstd::arithmetic::div_mod::lemma_mod_division_less_than_divisor(x, d);
    assert(x == d * q + x % d);
    if q >= m + 1 {
        assert(d * q >= d * (m + 1)) by (nonlinear_arith)
            requires
                q >= m + 1,
                d >= 2,
        ;
        assert(2 * short * m <= 2 * long * m) by (nonlinear_arith)
            requires
                short <= long,
                m >= 1,
        ;
        assert(d * (m + 1) == 2 * long * m + 2 * long) by (nonlinear_arith)
            requires
                d == 2 * long,
        ;
        assert(false);
    }
}

/// Dimension bound: the target dimensions always lie between 1 and the
/// budget, and an image that already fits the budget keeps its dimensions
/// unchanged.
pub proof fn lemma_dimension_bound(w: int, h: int, m: int)
    requires
        1 <= w,
        1 <= h,
        1 <= m,
    ensures
        ({
            let (nw, nh) = spec_target_dims(w, h, m);
            &&& 1 <= nw <= m
            &&& 1 <= nh <= m
            &&& within_budget(w, h, m) ==> nw == w && nh == h
        }),
{
    if within_budget(w, h, m) {
    } else if h <= w {
        assert(m < w);
        lemma_scaled_short_side_bounds(h, w, m);
    } else {
        lemma_scaled_short_side_bounds(w, h, m);
    }
}

/// The rounding error of the scaled shorter side, cross-multiplied: while the
/// exact aspect-preserving side would be `short * m / long`, the chosen side
/// `s` satisfies `-long <= 2 * (short * m - long * s) <= long`, except that
/// clamping to one pixel can only make the chosen side larger than exact.
proof fn lemma_scaled_short_side_aspect(short: int, long: int, m: int)
    requires
        1 <= short,
        short <= long,
        1 <= m,
    ensures
        -2 * long <= 2 * (short * m - long * scaled_short_side(short, long, m)),
        2 * (short * m - long * scaled_short_side(short, long, m)) <= long,
{
    let d = 2 * long;
    let x = 2 * short * m + long;
    let q = x / d;
    vstd::arithmetic::div_mod::lemma_fundamental_div_mod(x, d);
    vstd::arithmetic::div_mod::lemma_mod_division_less_than_divisor(x, d);
    assert(x == d * q + x % d);
    vstd::arithmetic::div_mod::lemma_div_pos_is_pos(x, d);
    assert(2 * short * m == 2 * (short * m)) by (nonlinear_arith);
    assert(d * q == 2 * (long * q)) by (nonlinear_arith)
        requires
            d == 2 * long,
    ;
    if q < 1 {
        // the exact side rounds to zero, so the result is clamped to 1
        assert(2 * (long * q) == 0) by (nonlinear_arith)
            requires
                q == 0,
        ;
        assert(short * m >= 1) by (nonlinear_arith)
            requires
                short >= 1,
                m >= 1,
        ;
        assert(2 * (short * m) < long);
        assert(2 * (short * m - long * 1) <= long);
        assert(-2 * long <= 2 * (short * m - long * 1));
    } else {
        // x == d * q + r with 0 <= r < d gives 2 * (short*m - long*q) == r - long
        assert(-long <= 2 * (short * m - long * q) < long);
    }
}

/// Aspect preservation: for a resized image the new dimensions keep the old
/// width-to-height ratio up to one pixel of rounding on the scaled side.
/// Cross-multiplied (for `h <= w`): `2 * (h * nw - w * nh)` lies within
/// `[-2w, w]`, i.e. the scaled side `nh` is within half a pixel of the exact
/// aspect-preserving value `h * nw / w`, except that clamping the scaled
/// side up to one pixel can only overshoot it.
pub proof fn lemma_aspect_preserved(w: int, h: int, m: int)
    requires
        1 <= w,
        1 <= h,
        1 <= m,
        !within_budget(w, h, m),
    ensures
        ({
            let (nw, nh) = spec_target_dims(w, h, m);
            &&& h <= w ==> -2 * w <= 2 * (h * nw - w * nh) <= w
            &&& w < h ==> -2 * h <= 2 * (w * nh - h * nw) <= h
        }),
{
    if h <= w {
        lemma_scaled_short_side_aspect(h, w, m);
    } else {
        lemma_scaled_short_side_aspect(w, h, m);
    }
}

/// Resizing is idempotent: the target dimensions themselves fit the budget,
/// so running the policy on them again changes nothing.
pub proof fn lemma_target_dims_idempotent(w: int, h: int, m: int)
    requires
        1 <= w,
        1 <= h,
        1 <= m,
    ensures
        ({
            let (nw, nh) = spec_target_dims(w, h, m);
            spec_target_dims(nw, nh, m) == (nw, nh)
        }),
{
    lemma_dimension_bound(w, h, m);
}

/// Computes `scaled_short_side` in 128-bit arithmetic, which the operands
/// drawn from 32-bit dimensions cannot overflow.
fn scaled_short(short: u32, long: u32, m: u32) -> (r: u32)
    requires
        1 <= short,
        short <= long,
        1 <= m,
    ensures
        r as int == scaled_short_side(short as int, long as int, m as int),
{
    proof {
        lemma_scaled_short_side_bounds(short as int, long as int, m as int);
        assert(2 * (short as int) * (m as int) + (long as int) < 0x1_0000_0000_0000_0000_0000)
            by (nonlinear_arith)
            requires
                0 <= short as int <= 0xffff_ffff,
                0 <= m as int <= 0xffff_ffff,
                0 <= long as int <= 0xffff_ffff,
        ;
    }
    let q128: u128 = (2u128 * (short as u128) * (m as u128) + (long as u128)) / (2u128 * (
    long as u128));
    assert(q128 as int == (2 * (short as int) * (m as int) + (long as int)) / (2 * (long as int)));
    if q128 < 1 {
        1u32
    } else {
        assert(q128 as int <= m as int);
        q128 as u32
    }
}

/// Computes the target dimensions of the resize policy.
pub fn target_dims(w: u32, h: u32, m: u32) -> (r: (u32, u32))
    requires
        1 <= w,
        1 <= h,
        1 <= m,
    ensures
        (r.0 as int, r.1 as int) == spec_target_dims(w as int, h as int, m as int),
        1 <= r.0 <= m,
        1 <= r.1 <= m,
        w <= m && h <= m ==> r.0 == w && r.1 == h,
{
    proof {
        lemma_dimension_bound(w as int, h as int, m as int);
    }
    if w <= m && h <= m {
        (w, h)
    } else if h <= w {
        (m, scaled_short(h, w, m))
    } else {
        (scaled_short(w, h, m), m)
    }
}

} // verus!
