//! Parameter validation: the checks every resize call passes before any pixel
//! is touched.
//!
//! The checks run in a fixed order, and the first failure wins: null
//! addresses, address alignment, zero dimensions, byte-size overflow,
//! dimension and pixel-count bounds, and finally buffer overlap. Buffer
//! addresses are plain integers here; the raw-pointer boundary that produces
//! them lives outside the verified kernel.

use vstd::prelude::*;

verus! {

use crate::context::ResizeContext;
use crate::status::{RESIZE_ERR_ALIGNMENT, RESIZE_ERR_INVALID_SIZE, RESIZE_ERR_NULL_PTR,
    RESIZE_ERR_OVERFLOW, RESIZE_ERR_OVERLAP, RESIZE_OK};

/// Largest accepted width or height, in pixels.
pub const MAX_DIMENSION: u32 = 65535;

/// Largest accepted pixel count per buffer (256 megapixels, so a single RGBA
/// buffer never exceeds 1 GiB).
pub const MAX_PIXELS: u64 = 268435456;

/// The byte length of a `w` by `h` RGBA buffer.
pub open spec fn byte_size(w: int, h: int) -> int {
    w * h * 4
}

/// The status of the dimension checks alone, in their fixed order: zero
/// dimensions, then byte-size overflow of the kernel's 32-bit size width,
/// then the dimension and pixel-count bounds.
pub open spec fn dims_status(src_w: u32, src_h: u32, dst_w: u32, dst_h: u32) -> i32 {
    if src_w == 0 || src_h == 0 || dst_w == 0 || dst_h == 0 {
        RESIZE_ERR_INVALID_SIZE
    } else if byte_size(src_w as int, src_h as int) > u32::MAX
        || byte_size(dst_w as int, dst_h as int) > u32::MAX {
        RESIZE_ERR_OVERFLOW
    } else if src_w > MAX_DIMENSION || src_h > MAX_DIMENSION || dst_w > MAX_DIMENSION
        || dst_h > MAX_DIMENSION || src_w * src_h > MAX_PIXELS || dst_w * dst_h > MAX_PIXELS {
        RESIZE_ERR_INVALID_SIZE
    } else {
        RESIZE_OK
    }
}

/// One past the last byte of a region, saturated at the address space's end.
pub open spec fn region_end(start: usize, len: int) -> int {
    if start + len > usize::MAX {
        usize::MAX as int
    } else {
        start + len
    }
}

/// Whether the two half-open byte ranges intersect.
pub open spec fn ranges_overlap(a_start: usize, a_len: int, b_start: usize, b_len: int) -> bool {
    a_start < region_end(b_start, b_len) && b_start < region_end(a_start, a_len)
}

/// The status of the full validator, checks in their fixed order.
pub open spec fn params_status(
    src_addr: usize,
    src_w: u32,
    src_h: u32,
    dst_addr: usize,
    dst_w: u32,
    dst_h: u32,
) -> i32 {
    if src_addr == 0 || dst_addr == 0 {
        RESIZE_ERR_NULL_PTR
    } else if src_addr % 4 != 0 || dst_addr % 4 != 0 {
        RESIZE_ERR_ALIGNMENT
    } else if dims_status(src_w, src_h, dst_w, dst_h) != RESIZE_OK {
        dims_status(src_w, src_h, dst_w, dst_h)
    } else if ranges_overlap(
        src_addr,
        byte_size(src_w as int, src_h as int),
        dst_addr,
        byte_size(dst_w as int, dst_h as int),
    ) {
        RESIZE_ERR_OVERLAP
    } else {
        RESIZE_OK
    }
}

/// Bounds that every accepted dimension quadruple satisfies.
pub proof fn lemma_dims_ok_bounds(src_w: u32, src_h: u32, dst_w: u32, dst_h: u32)
    requires
        dims_status(src_w, src_h, dst_w, dst_h) == RESIZE_OK,
    ensures
        0 < src_w <= MAX_DIMENSION,
        0 < src_h <= MAX_DIMENSION,
        0 < dst_w <= MAX_DIMENSION,
        0 < dst_h <= MAX_DIMENSION,
        src_w * src_h <= MAX_PIXELS,
        dst_w * dst_h <= MAX_PIXELS,
        byte_size(src_w as int, src_h as int) <= u32::MAX,
        byte_size(dst_w as int, dst_h as int) <= u32::MAX,
{
}

/// Checks the four dimensions and computes the two safe byte lengths.
///
/// Succeeds exactly when `dims_status` is `RESIZE_OK`, and then returns the
/// source and destination byte sizes; fails with that status otherwise.
pub fn validate_dims(src_w: u32, src_h: u32, dst_w: u32, dst_h: u32) -> (r: Result<
    (usize, usize),
    i32,
>)
    ensures
        match r {
            Ok(sizes) => dims_status(src_w, src_h, dst_w, dst_h) == RESIZE_OK
                && sizes.0 == byte_size(src_w as int, src_h as int)
                && sizes.1 == byte_size(dst_w as int, dst_h as int),
            Err(code) => dims_status(src_w, src_h, dst_w, dst_h) != RESIZE_OK
                && code == dims_status(src_w, src_h, dst_w, dst_h),
        },
{
    if src_w == 0 || src_h == 0 || dst_w == 0 || dst_h == 0 {
        return Err(RESIZE_ERR_INVALID_SIZE);
    }
    proof {
        assert(src_w * src_h <= u32::MAX * u32::MAX && dst_w * dst_h <= u32::MAX * u32::MAX)
            by (nonlinear_arith)
            requires
                src_w <= u32::MAX,
                src_h <= u32::MAX,
                dst_w <= u32::MAX,
                dst_h <= u32::MAX,
        ;
    }
    let src_pixels: u64 = (src_w as u64) * (src_h as u64);
    let dst_pixels: u64 = (dst_w as u64) * (dst_h as u64);
    proof {
        assert(src_pixels * 4 == byte_size(src_w as int, src_h as int)) by (nonlinear_arith)
            requires
                src_pixels == src_w * src_h,
        ;
        assert(dst_pixels * 4 == byte_size(dst_w as int, dst_h as int)) by (nonlinear_arith)
            requires
                dst_pixels == dst_w * dst_h,
        ;
    }
    if src_pixels > (u32::MAX as u64) / 4 || dst_pixels > (u32::MAX as u64) / 4 {
        return Err(RESIZE_ERR_OVERFLOW);
    }
    if src_w > MAX_DIMENSION || src_h > MAX_DIMENSION || dst_w > MAX_DIMENSION
        || dst_h > MAX_DIMENSION {
        return Err(RESIZE_ERR_INVALID_SIZE);
    }
    if src_pixels > MAX_PIXELS || dst_pixels > MAX_PIXELS {
        return Err(RESIZE_ERR_INVALID_SIZE);
    }
    Ok(((src_pixels as usize) * 4, (dst_pixels as usize) * 4))
}

/// Runs the full validator on buffer addresses and dimensions, and
/// latches the outcome in the context.
///
/// Succeeds exactly when `params_status` is `RESIZE_OK`, and then returns the
/// source and destination byte sizes; fails with that status otherwise. The
/// validator touches no buffer memory: it only computes on addresses and lengths.
pub fn validate_params(
    ctx: &mut ResizeContext,
    src_addr: usize,
    src_w: u32,
    src_h: u32,
    dst_addr: usize,
    dst_w: u32,
    dst_h: u32,
) -> (r: Result<(usize, usize), i32>)
    ensures
        final(ctx).last_error == params_status(src_addr, src_w, src_h, dst_addr, dst_w, dst_h),
        match r {
            Ok(sizes) => params_status(src_addr, src_w, src_h, dst_addr, dst_w, dst_h)
                == RESIZE_OK && sizes.0 == byte_size(src_w as int, src_h as int)
                && sizes.1 == byte_size(dst_w as int, dst_h as int),
            Err(code) => params_status(src_addr, src_w, src_h, dst_addr, dst_w, dst_h)
                != RESIZE_OK && code == params_status(
                src_addr,
                src_w,
                src_h,
                dst_addr,
                dst_w,
                dst_h,
            ),
        },
{
    if src_addr == 0 || dst_addr == 0 {
        ctx.set_last_error(RESIZE_ERR_NULL_PTR);
        return Err(RESIZE_ERR_NULL_PTR);
    }
    if src_addr % 4 != 0 || dst_addr % 4 != 0 {
        ctx.set_last_error(RESIZE_ERR_ALIGNMENT);
        return Err(RESIZE_ERR_ALIGNMENT);
    }
    let (src_size, dst_size): (usize, usize) = match validate_dims(src_w, src_h, dst_w, dst_h) {
        Ok(sizes) => sizes,
        Err(code) => {
            ctx.set_last_error(code);
            return Err(code);
        },
    };
    let src_end: usize = if src_addr <= usize::MAX - src_size {
        src_addr + src_size
    } else {
        usize::MAX
    };
    let dst_end: usize = if dst_addr <= usize::MAX - dst_size {
        dst_addr + dst_size
    } else {
        usize::MAX
    };
    if src_addr < dst_end && dst_addr < src_end {
        ctx.set_last_error(RESIZE_ERR_OVERLAP);
        return Err(RESIZE_ERR_OVERLAP);
    }
    ctx.set_last_error(RESIZE_OK);
    Ok((src_size, dst_size))
}

/// A null source or destination address is reported before any other check
/// fires, whatever the dimensions are.
pub proof fn lemma_null_pointer_first(
    src_addr: usize,
    src_w: u32,
    src_h: u32,
    dst_addr: usize,
    dst_w: u32,
    dst_h: u32,
)
    requires
        src_addr == 0 || dst_addr == 0,
    ensures
        params_status(src_addr, src_w, src_h, dst_addr, dst_w, dst_h) == RESIZE_ERR_NULL_PTR,
{
}

/// A zero dimension on either buffer is rejected as an invalid size.
pub proof fn lemma_zero_dimension_rejected(src_w: u32, src_h: u32, dst_w: u32, dst_h: u32)
    requires
        src_w == 0 || src_h == 0 || dst_w == 0 || dst_h == 0,
    ensures
        dims_status(src_w, src_h, dst_w, dst_h) == RESIZE_ERR_INVALID_SIZE,
{
}

/// A dimension pair whose byte size exceeds the kernel's 32-bit size width is
/// rejected as overflow, never wrapped or truncated.
pub proof fn lemma_size_overflow_rejected(src_w: u32, src_h: u32, dst_w: u32, dst_h: u32)
    requires
        src_w > 0,
        src_h > 0,
        dst_w > 0,
        dst_h > 0,
        byte_size(src_w as int, src_h as int) > u32::MAX || byte_size(
            dst_w as int,
            dst_h as int,
        ) > u32::MAX,
    ensures
        dims_status(src_w, src_h, dst_w, dst_h) == RESIZE_ERR_OVERFLOW,
{
}

/// Intersecting buffer ranges are rejected once every earlier check passes.
/// The validator performs no buffer access at all, so a rejected call writes
/// nothing.
pub proof fn lemma_overlap_rejected(
    src_addr: usize,
    src_w: u32,
    src_h: u32,
    dst_addr: usize,
    dst_w: u32,
    dst_h: u32,
)
    requires
        src_addr != 0,
        dst_addr != 0,
        src_addr % 4 == 0,
        dst_addr % 4 == 0,
        dims_status(src_w, src_h, dst_w, dst_h) == RESIZE_OK,
        ranges_overlap(
            src_addr,
            byte_size(src_w as int, src_h as int),
            dst_addr,
            byte_size(dst_w as int, dst_h as int),
        ),
    ensures
        params_status(src_addr, src_w, src_h, dst_addr, dst_w, dst_h) == RESIZE_ERR_OVERLAP,
{
}

} // verus!
