//! Scale-to-fit arithmetic: shrink an image only when it exceeds the bounding
//! box, keep its aspect ratio, never enlarge it.
//!
//! The scale factor is the rational number `min(max_w / w, max_h / h)`. It is
//! never formed; every comparison is made by cross-multiplication, so the
//! results are exact.

use vstd::prelude::*;

verus! {

/// What has to be done with an image of a given size.
#[derive(Clone, Copy, Debug, PartialEq, Eq, Structural)]
pub enum ResizePlan {
    /// The image already fits and is handed on untouched.
    Keep,
    /// The image is resampled to exactly these dimensions.
    Scale { width: u32, height: u32 },
}

/// The image fits the box: the scale factor is at least one.
pub open spec fn fits(w: int, h: int, max_w: int, max_h: int) -> bool {
    w <= max_w && h <= max_h
}

/// The width ratio `max_w / w` is the smaller of the two ratios, so the width
/// decides the scale. A side of length zero has no ratio and never decides.
pub open spec fn width_decides(w: int, h: int, max_w: int, max_h: int) -> bool {
    h == 0 || (w != 0 && max_w * h <= max_h * w)
}

/// `num / den` rounded to the nearest integer, halves upwards.
pub open spec fn round_div(num: int, den: int) -> int
    recommends
        num >= 0,
        den > 0,
{
    (2 * num + den) / (2 * den)
}

/// A length floored at one pixel.
pub open spec fn at_least_one(x: int) -> int {
    if x < 1 {
        1
    } else {
        x
    }
}

/// Width of the resampled image: `max(1, round(w * scale))`.
pub open spec fn scaled_width(w: int, h: int, max_w: int, max_h: int) -> int {
    if width_decides(w, h, max_w, max_h) {
        at_least_one(max_w)
    } else {
        at_least_one(round_div(w * max_h, h))
    }
}

/// Height of the resampled image: `max(1, round(h * scale))`.
pub open spec fn scaled_height(w: int, h: int, max_w: int, max_h: int) -> int {
    if width_decides(w, h, max_w, max_h) {
        at_least_one(round_div(h * max_w, w))
    } else {
        at_least_one(max_h)
    }
}

/// The plan for an image of `w` by `h` pixels in a box of `max_w` by `max_h`.
pub open spec fn plan_of(w: int, h: int, max_w: int, max_h: int) -> ResizePlan {
    if fits(w, h, max_w, max_h) {
        ResizePlan::Keep
    } else {
        ResizePlan::Scale {
            width: scaled_width(w, h, max_w, max_h) as u32,
            height: scaled_height(w, h, max_w, max_h) as u32,
        }
    }
}

/// A rounded quotient that the divisor bounds stays within the bound.
pub proof fn lemma_round_div_bounded(num: int, den: int, bound: int)
    requires
        num >= 0,
        den > 0,
        bound >= 0,
        num <= bound * den,
    ensures
        0 <= round_div(num, den) <= bound,
{
    let q = round_div(num, den);
    assert(2 * num + den < (bound + 1) * (2 * den)) by (nonlinear_arith)
        requires
            num <= bound * den,
            den > 0,
    ;
    assert(q <= bound) by (nonlinear_arith)
        requires
            q == (2 * num + den) / (2 * den),
            2 * num + den < (bound + 1) * (2 * den),
            den > 0,
    ;
    assert(q >= 0) by (nonlinear_arith)
        requires
            q == (2 * num + den) / (2 * den),
            num >= 0,
            den > 0,
    ;
}

/// A rounded quotient lies within half a divisor of the exact one.
pub proof fn lemma_round_div_error(num: int, den: int)
    requires
        num >= 0,
        den > 0,
    ensures
        -den < 2 * (round_div(num, den) * den - num) <= den,
{
    let q = round_div(num, den);
    assert(-den < 2 * (q * den - num) <= den) by (nonlinear_arith)
        requires
            q == (2 * num + den) / (2 * den),
            num >= 0,
            den > 0,
    ;
}

/// `num / den` rounded to the nearest integer, halves upwards, for a quotient
/// that `bound` limits.
fn rounded_quotient(num: u64, den: u32, bound: u32) -> (q: u32)
    requires
        den > 0,
        num <= bound * den,
    ensures
        q == round_div(num as int, den as int),
        q <= bound,
{
    proof {
        lemma_round_div_bounded(num as int, den as int, bound as int);
    }
    assert(bound * den <= 0xffff_ffff * 0xffff_ffff) by (nonlinear_arith)
        requires
            bound <= 0xffff_ffff,
            den <= 0xffff_ffff,
    ;
    let twice: u128 = 2 * (num as u128) + (den as u128);
    let q: u128 = twice / (2 * (den as u128));
    q as u32
}

/// Decides whether an image of `w` by `h` pixels must be resampled to fit a
/// box of `max_w` by `max_h` pixels, and to which size.
pub fn plan_resize(w: u32, h: u32, max_w: u32, max_h: u32) -> (plan: ResizePlan)
    ensures
        plan == plan_of(w as int, h as int, max_w as int, max_h as int),
        fits(w as int, h as int, max_w as int, max_h as int) <==> plan == ResizePlan::Keep,
        plan matches ResizePlan::Scale { width, height } ==> {
            &&& width == scaled_width(w as int, h as int, max_w as int, max_h as int)
            &&& height == scaled_height(w as int, h as int, max_w as int, max_h as int)
            &&& 1 <= width
            &&& 1 <= height
        },
{
    if w <= max_w && h <= max_h {
        return ResizePlan::Keep;
    }
    assert(max_w * h <= 0xffff_ffff * 0xffff_ffff && max_h * w <= 0xffff_ffff * 0xffff_ffff)
        by (nonlinear_arith)
        requires
            max_w <= 0xffff_ffff,
            h <= 0xffff_ffff,
            max_h <= 0xffff_ffff,
            w <= 0xffff_ffff,
    ;
    let across: u64 = (max_w as u64) * (h as u64);
    let along: u64 = (max_h as u64) * (w as u64);
    let by_width: bool = h == 0 || (w != 0 && across <= along);
    assert(by_width == width_decides(w as int, h as int, max_w as int, max_h as int));
    if by_width {
        // A width of zero decides only beside a height of zero, and then it
        // is the width that does not fit.
        assert(w > 0);
        let num: u64 = (h as u64) * (max_w as u64);
        assert(num <= max_h * w) by (nonlinear_arith)
            requires
                num == h * max_w,
                h == 0 || max_w * h <= max_h * w,
        ;
        let height: u32 = rounded_quotient(num, w, max_h);
        let width: u32 = if max_w < 1 { 1 } else { max_w };
        let height: u32 = if height < 1 { 1 } else { height };
        ResizePlan::Scale { width, height }
    } else {
        assert(h > 0);
        let num: u64 = (w as u64) * (max_h as u64);
        assert(num <= max_w * h) by (nonlinear_arith)
            requires
                num == w * max_h,
                w == 0 || max_w * h > max_h * w,
        ;
        let width: u32 = rounded_quotient(num, h, max_w);
        let width: u32 = if width < 1 { 1 } else { width };
        let height: u32 = if max_h < 1 { 1 } else { max_h };
        ResizePlan::Scale { width, height }
    }
}

/// An image that fits its box is never resampled: the plan is to keep it.
pub proof fn law_fitting_image_is_kept(w: int, h: int, max_w: int, max_h: int)
    requires
        fits(w, h, max_w, max_h),
    ensures
        plan_of(w, h, max_w, max_h) == ResizePlan::Keep,
{
}

/// An image that does not fit is scaled to a size that lies inside the box
/// and inside the image itself, so the plan never enlarges.
pub proof fn law_scaled_size_is_bounded(w: int, h: int, max_w: int, max_h: int)
    requires
        1 <= w,
        1 <= h,
        1 <= max_w,
        1 <= max_h,
        !fits(w, h, max_w, max_h),
    ensures
        1 <= scaled_width(w, h, max_w, max_h) <= max_w,
        1 <= scaled_height(w, h, max_w, max_h) <= max_h,
        scaled_width(w, h, max_w, max_h) <= w,
        scaled_height(w, h, max_w, max_h) <= h,
{
    if width_decides(w, h, max_w, max_h) {
        assert(max_w * h <= max_h * w);
        // The width ratio is the smaller one and some ratio is below one.
        assert(max_w < w) by (nonlinear_arith)
            requires
                max_w * h <= max_h * w,
                w > max_w || h > max_h,
                1 <= w,
                1 <= h,
        ;
        assert(h * max_w <= max_h * w && h * max_w <= h * w && h * max_w >= 0)
            by (nonlinear_arith)
            requires
                max_w * h <= max_h * w,
                max_w < w,
                1 <= h,
                1 <= max_w,
        ;
        lemma_round_div_bounded(h * max_w, w, max_h);
        lemma_round_div_bounded(h * max_w, w, h);
    } else {
        assert(max_w * h > max_h * w);
        assert(max_h < h) by (nonlinear_arith)
            requires
                max_w * h > max_h * w,
                w > max_w || h > max_h,
                1 <= w,
                1 <= h,
        ;
        assert(w * max_h <= max_w * h && w * max_h <= w * h && w * max_h >= 0)
            by (nonlinear_arith)
            requires
                max_w * h > max_h * w,
                max_h < h,
                1 <= w,
                1 <= max_h,
        ;
        lemma_round_div_bounded(w * max_h, h, max_w);
        lemma_round_div_bounded(w * max_h, h, w);
    }
}

/// Scaling keeps the aspect ratio up to rounding: unless the one-pixel floor
/// had to lift a side, the cross products `dst_w * h` and `dst_h * w` differ
/// by at most half of the side that decided the scale.
pub proof fn law_aspect_is_preserved(w: int, h: int, max_w: int, max_h: int)
    requires
        1 <= w,
        1 <= h,
        1 <= max_w,
        1 <= max_h,
        !fits(w, h, max_w, max_h),
    ensures
        ({
            let dw = scaled_width(w, h, max_w, max_h);
            let dh = scaled_height(w, h, max_w, max_h);
            if width_decides(w, h, max_w, max_h) {
                dw == max_w && (round_div(h * max_w, w) >= 1 ==> -w < 2 * (dh * w - dw * h) <= w)
            } else {
                dh == max_h && (round_div(w * max_h, h) >= 1 ==> -h < 2 * (dw * h - dh * w) <= h)
            }
        }),
{
    if width_decides(w, h, max_w, max_h) {
        assert(h * max_w >= 0) by (nonlinear_arith)
            requires
                1 <= h,
                1 <= max_w,
        ;
        lemma_round_div_error(h * max_w, w);
        assert(max_w * h == h * max_w) by (nonlinear_arith);
    } else {
        assert(w * max_h >= 0) by (nonlinear_arith)
            requires
                1 <= w,
                1 <= max_h,
        ;
        lemma_round_div_error(w * max_h, h);
        assert(max_h * w == w * max_h) by (nonlinear_arith);
    }
}

} // verus!
