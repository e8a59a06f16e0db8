//! The resize entry points: validation, algorithm selection, and dispatch to
//! the two resamplers.

use vstd::prelude::*;

verus! {

use crate::bilinear::{bl_image, resample_bilinear};
use crate::context::ResizeContext;
use crate::nearest::{nn_image, resample_nearest};
use crate::select::{should_use_nearest_neighbor, spec_use_nearest};
use crate::status::{RESIZE_ERR_MEMORY, RESIZE_OK};
use crate::validate::{byte_size, dims_status, validate_dims};

/// The status of a resize over in-memory buffers: the dimension checks in
/// their fixed order, then a check that each buffer has exactly the byte
/// length its dimensions require.
pub open spec fn buffers_status(
    src_len: int,
    dst_len: int,
    src_w: u32,
    src_h: u32,
    dst_w: u32,
    dst_h: u32,
) -> i32 {
    if dims_status(src_w, src_h, dst_w, dst_h) != RESIZE_OK {
        dims_status(src_w, src_h, dst_w, dst_h)
    } else if src_len != byte_size(src_w as int, src_h as int) || dst_len != byte_size(
        dst_w as int,
        dst_h as int,
    ) {
        RESIZE_ERR_MEMORY
    } else {
        RESIZE_OK
    }
}

/// Resizes `src` into `dst` with nearest-neighbor sampling, regardless of the
/// selector's choice.
///
/// On success the destination holds exactly the nearest-neighbor resampling
/// of the source; on any failure the destination is untouched. The returned
/// status is also latched in the context.
pub fn resize_rgba_nearest(
    ctx: &mut ResizeContext,
    src: &Vec<u8>,
    src_w: u32,
    src_h: u32,
    dst: &mut Vec<u8>,
    dst_w: u32,
    dst_h: u32,
) -> (code: i32)
    ensures
        code == buffers_status(
            src@.len() as int,
            old(dst)@.len() as int,
            src_w,
            src_h,
            dst_w,
            dst_h,
        ),
        final(ctx).last_error == code,
        code != RESIZE_OK ==> final(dst)@ == old(dst)@,
        code == RESIZE_OK ==> final(dst)@ == nn_image(
            src@,
            src_w as int,
            src_h as int,
            dst_w as int,
            dst_h as int,
        ),
{
    match validate_dims(src_w, src_h, dst_w, dst_h) {
        Err(code) => {
            ctx.set_last_error(code);
            code
        },
        Ok((src_size, dst_size)) => {
            if src.len() != src_size || dst.len() != dst_size {
                ctx.set_last_error(RESIZE_ERR_MEMORY);
                RESIZE_ERR_MEMORY
            } else {
                resample_nearest(ctx, src, src_w, src_h, dst, dst_w, dst_h);
                ctx.set_last_error(RESIZE_OK);
                RESIZE_OK
            }
        },
    }
}

/// Resizes `src` into `dst`, selecting the algorithm automatically: the
/// selector's nearest-neighbor branch delegates entirely to nearest-neighbor
/// sampling, every other resize is bilinear.
///
/// On success the destination holds exactly the selected resampling of the
/// source; on any failure the destination is untouched. The returned status
/// is also latched in the context.
pub fn resize_rgba(
    ctx: &mut ResizeContext,
    src: &Vec<u8>,
    src_w: u32,
    src_h: u32,
    dst: &mut Vec<u8>,
    dst_w: u32,
    dst_h: u32,
) -> (code: i32)
    ensures
        code == buffers_status(
            src@.len() as int,
            old(dst)@.len() as int,
            src_w,
            src_h,
            dst_w,
            dst_h,
        ),
        final(ctx).last_error == code,
        code != RESIZE_OK ==> final(dst)@ == old(dst)@,
        code == RESIZE_OK ==> final(dst)@ == if spec_use_nearest(
            src_w as int,
            src_h as int,
            dst_w as int,
            dst_h as int,
        ) {
            nn_image(src@, src_w as int, src_h as int, dst_w as int, dst_h as int)
        } else {
            bl_image(src@, src_w as int, src_h as int, dst_w as int, dst_h as int)
        },
{
    match validate_dims(src_w, src_h, dst_w, dst_h) {
        Err(code) => {
            ctx.set_last_error(code);
            code
        },
        Ok((src_size, dst_size)) => {
            if src.len() != src_size || dst.len() != dst_size {
                ctx.set_last_error(RESIZE_ERR_MEMORY);
                RESIZE_ERR_MEMORY
            } else {
                if should_use_nearest_neighbor(src_w, src_h, dst_w, dst_h) {
                    resample_nearest(ctx, src, src_w, src_h, dst, dst_w, dst_h);
                } else {
                    resample_bilinear(ctx, src, src_w, src_h, dst, dst_w, dst_h);
                }
                ctx.set_last_error(RESIZE_OK);
                RESIZE_OK
            }
        },
    }
}

} // verus!
