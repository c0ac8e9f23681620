//! Resolution normalizer: turns a resolution request into concrete even
//! pixel dimensions and computes the fit-inside scaling with centered
//! padding that every clip segment receives.

use vstd::prelude::*;

verus! {

/// A requested output resolution: one of the named presets, or explicit
/// dimensions that are rounded down to even numbers.
#[derive(Clone, Copy, Debug, PartialEq, Eq, Structural)]
pub enum Resolution {
    /// 1280 x 720.
    Hd720,
    /// 1920 x 1080.
    FullHd1080,
    /// Explicit dimensions in pixels.
    Custom { width: u32, height: u32 },
}

/// `v` rounded down to the nearest even number.
pub open spec fn spec_floor_even(v: u32) -> int {
    v - (v as int) % 2
}

/// Concrete output width of a request.
pub open spec fn spec_target_width(r: Resolution) -> int {
    match r {
        Resolution::Hd720 => 1280,
        Resolution::FullHd1080 => 1920,
        Resolution::Custom { width, .. } => spec_floor_even(width),
    }
}

/// Concrete output height of a request.
pub open spec fn spec_target_height(r: Resolution) -> int {
    match r {
        Resolution::Hd720 => 720,
        Resolution::FullHd1080 => 1080,
        Resolution::Custom { height, .. } => spec_floor_even(height),
    }
}

/// Resolves a request into concrete pixel dimensions, always even.
pub fn resolve_resolution(r: &Resolution) -> (dims: (u32, u32))
    ensures
        dims.0 == spec_target_width(*r),
        dims.1 == spec_target_height(*r),
        dims.0 % 2 == 0,
        dims.1 % 2 == 0,
{
    match r {
        Resolution::Hd720 => (1280, 720),
        Resolution::FullHd1080 => (1920, 1080),
        Resolution::Custom { width, height } => (*width - *width % 2, *height - *height % 2),
    }
}

/// Width of a source scaled to the largest size that fits inside the
/// target box while preserving the aspect ratio, rounding down.
pub open spec fn spec_fit_width(src_w: int, src_h: int, dst_w: int, dst_h: int) -> int {
    if src_w * dst_h <= src_h * dst_w {
        src_w * dst_h / src_h
    } else {
        dst_w
    }
}

/// Height counterpart of `spec_fit_width`.
pub open spec fn spec_fit_height(src_w: int, src_h: int, dst_w: int, dst_h: int) -> int {
    if src_w * dst_h <= src_h * dst_w {
        dst_h
    } else {
        src_h * dst_w / src_w
    }
}

/// The scaled size never exceeds the target box, and the bounding side is
/// reached exactly.
pub proof fn lemma_fit_inside(src_w: int, src_h: int, dst_w: int, dst_h: int)
    requires
        src_w >= 1,
        src_h >= 1,
        dst_w >= 0,
        dst_h >= 0,
    ensures
        0 <= spec_fit_width(src_w, src_h, dst_w, dst_h) <= dst_w,
        0 <= spec_fit_height(src_w, src_h, dst_w, dst_h) <= dst_h,
        spec_fit_width(src_w, src_h, dst_w, dst_h) == dst_w || spec_fit_height(
            src_w,
            src_h,
            dst_w,
            dst_h,
        ) == dst_h,
{
    if src_w * dst_h <= src_h * dst_w {
        vstd::arithmetic::div_mod::lemma_div_is_ordered(src_w * dst_h, src_h * dst_w, src_h);
        vstd::arithmetic::div_mod::lemma_div_multiples_vanish(dst_w, src_h);
        assert(src_w * dst_h >= 0) by (nonlinear_arith)
            requires
                src_w >= 1 && dst_h >= 0,
        ;
        vstd::arithmetic::div_mod::lemma_div_pos_is_pos(src_w * dst_h, src_h);
    } else {
        assert(src_h * dst_w <= src_w * dst_h);
        vstd::arithmetic::div_mod::lemma_div_is_ordered(src_h * dst_w, src_w * dst_h, src_w);
        vstd::arithmetic::div_mod::lemma_div_multiples_vanish(dst_h, src_w);
        assert(src_h * dst_w >= 0) by (nonlinear_arith)
            requires
                src_h >= 1 && dst_w >= 0,
        ;
        vstd::arithmetic::div_mod::lemma_div_pos_is_pos(src_h * dst_w, src_w);
    }
}

/// Computes the fit-inside scaled size of a `src_w` x `src_h` source in a
/// `dst_w` x `dst_h` target box.
pub fn fit_dimensions(src_w: u32, src_h: u32, dst_w: u32, dst_h: u32) -> (scaled: (u32, u32))
    requires
        src_w >= 1,
        src_h >= 1,
    ensures
        scaled.0 == spec_fit_width(src_w as int, src_h as int, dst_w as int, dst_h as int),
        scaled.1 == spec_fit_height(src_w as int, src_h as int, dst_w as int, dst_h as int),
        scaled.0 <= dst_w,
        scaled.1 <= dst_h,
{
    proof {
        lemma_fit_inside(src_w as int, src_h as int, dst_w as int, dst_h as int);
    }
    let sw = src_w as u64;
    let sh = src_h as u64;
    let dw = dst_w as u64;
    let dh = dst_h as u64;
    proof {
        assert(sw * dh <= 0xffff_ffff * 0xffff_ffff && sh * dw <= 0xffff_ffff * 0xffff_ffff)
            by (nonlinear_arith)
            requires
                sw <= 0xffff_ffff && sh <= 0xffff_ffff && dw <= 0xffff_ffff && dh
                    <= 0xffff_ffff,
        ;
    }
    if sw * dh <= sh * dw {
        let w = sw * dh / sh;
        (w as u32, dst_h)
    } else {
        let h = sh * dw / sw;
        (dst_w, h as u32)
    }
}

/// Left or top padding that centers a scaled side of length `inner` in a
/// target side of length `outer`: half the slack, rounded down.
pub open spec fn spec_center_offset(inner: int, outer: int) -> int {
    (outer - inner) / 2
}

/// Computes the centering offset; the two resulting margins differ by at
/// most one pixel, so the padding is symmetric up to rounding.
pub fn center_offset(inner: u32, outer: u32) -> (off: u32)
    requires
        inner <= outer,
    ensures
        off == spec_center_offset(inner as int, outer as int),
        off + inner <= outer,
        (outer - inner - off) - off <= 1,
        off <= (outer - inner - off),
{
    (outer - inner) / 2
}

} // verus!
