//! The algorithm selector: a pure heuristic from the four dimensions to the
//! choice between nearest-neighbor sampling and bilinear interpolation.

use vstd::prelude::*;

verus! {

/// The downscale-ratio threshold applied to a source of `src_pixels` pixels:
/// small images keep the higher-quality bilinear path up to 8x downscaling,
/// medium images up to 4x, large images only up to 2x.
pub open spec fn downscale_threshold(src_pixels: int) -> int {
    if src_pixels < 1000000 {
        8
    } else if src_pixels < 10000000 {
        4
    } else {
        2
    }
}

/// Whether the kernel picks nearest-neighbor sampling for a resize from
/// `src_w` by `src_h` to `dst_w` by `dst_h`.
///
/// Upscaling or same-size in both axes always picks bilinear; a downscale of
/// more than 8x on either axis always picks nearest; otherwise nearest is
/// picked exactly when the downscaling axis exceeds the size-dependent
/// threshold.
pub open spec fn spec_use_nearest(src_w: int, src_h: int, dst_w: int, dst_h: int) -> bool {
    let down_x = src_w > dst_w;
    let down_y = src_h > dst_h;
    if !down_x && !down_y {
        false
    } else if (down_x && src_w > 8 * dst_w) || (down_y && src_h > 8 * dst_h) {
        true
    } else {
        let t = downscale_threshold(src_w * src_h);
        (down_x && src_w > t * dst_w) || (down_y && src_h > t * dst_h)
    }
}

/// Whether the resize uses an integer scale factor in each axis: downscaling
/// by an exact divisor, or upscaling by an exact multiple.
pub fn is_integer_scaling(src_w: u32, src_h: u32, dst_w: u32, dst_h: u32) -> (r: (bool, bool))
    requires
        src_w > 0,
        src_h > 0,
        dst_w > 0,
        dst_h > 0,
    ensures
        r.0 == if src_w >= dst_w {
            src_w % dst_w == 0
        } else {
            dst_w % src_w == 0
        },
        r.1 == if src_h >= dst_h {
            src_h % dst_h == 0
        } else {
            dst_h % src_h == 0
        },
{
    let is_integer_x = if src_w >= dst_w {
        src_w % dst_w == 0
    } else {
        dst_w % src_w == 0
    };
    let is_integer_y = if src_h >= dst_h {
        src_h % dst_h == 0
    } else {
        dst_h % src_h == 0
    };
    (is_integer_x, is_integer_y)
}

/// Decides whether nearest-neighbor sampling should be used for this resize.
pub fn should_use_nearest_neighbor(src_w: u32, src_h: u32, dst_w: u32, dst_h: u32) -> (r: bool)
    ensures
        r == spec_use_nearest(src_w as int, src_h as int, dst_w as int, dst_h as int),
{
    let down_x = src_w > dst_w;
    let down_y = src_h > dst_h;
    if !down_x && !down_y {
        return false;
    }
    if (down_x && (src_w as u64) > 8 * (dst_w as u64)) || (down_y && (src_h as u64) > 8 * (dst_h
        as u64)) {
        return true;
    }
    proof {
        assert(src_w * src_h <= u32::MAX * u32::MAX) by (nonlinear_arith)
            requires
                src_w <= u32::MAX,
                src_h <= u32::MAX,
        ;
    }
    let src_pixels: u64 = (src_w as u64) * (src_h as u64);
    if src_pixels < 1000000 {
        (down_x && (src_w as u64) > 8 * (dst_w as u64)) || (down_y && (src_h as u64) > 8 * (dst_h
            as u64))
    } else if src_pixels < 10000000 {
        (down_x && (src_w as u64) > 4 * (dst_w as u64)) || (down_y && (src_h as u64) > 4 * (dst_h
            as u64))
    } else {
        (down_x && (src_w as u64) > 2 * (dst_w as u64)) || (down_y && (src_h as u64) > 2 * (dst_h
            as u64))
    }
}

/// A downscale of more than 8x on either axis forces nearest-neighbor
/// sampling, whatever the image size and its threshold are.
pub proof fn lemma_extreme_downscale_forces_nearest(src_w: int, src_h: int, dst_w: int, dst_h: int)
    requires
        1 <= dst_w,
        1 <= dst_h,
        src_w > 8 * dst_w || src_h > 8 * dst_h,
    ensures
        spec_use_nearest(src_w, src_h, dst_w, dst_h),
{
}

/// A resize that downscales in neither axis always takes the bilinear path.
pub proof fn lemma_upscale_prefers_bilinear(src_w: int, src_h: int, dst_w: int, dst_h: int)
    requires
        src_w <= dst_w,
        src_h <= dst_h,
    ensures
        !spec_use_nearest(src_w, src_h, dst_w, dst_h),
{
}

} // verus!
