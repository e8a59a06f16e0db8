//! Nearest-neighbor resampling.
//!
//! Each destination pixel copies the source pixel under center-sample
//! mapping: source coordinate `floor((d + 0.5) * src_dim / dst_dim)`,
//! computed exactly as `((2*d + 1) * src_dim) / (2 * dst_dim)` in integers.
//! A per-column lookup table of source byte offsets is built once and reused
//! for every destination row.

use vstd::prelude::*;

verus! {

use vstd::arithmetic::div_mod::{lemma_div_pos_is_pos, lemma_multiply_divide_lt};
use crate::context::ResizeContext;
use crate::pixel::{lemma_index_decompose, lemma_pixel_offset_decompose, pixel_offset, px_c, px_x,
    px_y};
use crate::validate::{byte_size, dims_status, lemma_dims_ok_bounds};
use crate::status::RESIZE_OK;

/// The source row or column sampled for destination coordinate `d`, for a
/// source dimension `s` and destination dimension `n`: the center-sample
/// mapping `floor((d + 0.5) * s / n)`.
pub open spec fn nn_src_coord(d: int, s: int, n: int) -> int {
    ((2 * d + 1) * s) / (2 * n)
}

/// The byte of channel `c` of the destination pixel at `(x, y)` under
/// nearest-neighbor resampling.
pub open spec fn nn_pixel_byte(
    src: Seq<u8>,
    src_w: int,
    src_h: int,
    dst_w: int,
    dst_h: int,
    x: int,
    y: int,
    c: int,
) -> u8 {
    src[pixel_offset(nn_src_coord(x, src_w, dst_w), nn_src_coord(y, src_h, dst_h), src_w, c)]
}

/// The whole nearest-neighbor resampling of `src` to `dst_w` by `dst_h`.
pub open spec fn nn_image(src: Seq<u8>, src_w: int, src_h: int, dst_w: int, dst_h: int) -> Seq<
    u8,
> {
    Seq::new(
        (dst_w * dst_h * 4) as nat,
        |i: int|
            nn_pixel_byte(src, src_w, src_h, dst_w, dst_h, px_x(i, dst_w), px_y(i, dst_w), px_c(i)),
    )
}

/// The sampled coordinate always lies inside the source dimension; the clamp
/// the mapping calls for never has to move it.
pub proof fn lemma_nn_coord_in_range(d: int, s: int, n: int)
    requires
        0 <= d < n,
        1 <= s,
    ensures
        0 <= nn_src_coord(d, s, n) < s,
{
    assert(0 <= (2 * d + 1) * s) by (nonlinear_arith)
        requires
            0 <= d,
            1 <= s,
    ;
    lemma_div_pos_is_pos((2 * d + 1) * s, 2 * n);
    assert((2 * d + 1) * s < (2 * n) * s) by (nonlinear_arith)
        requires
            d < n,
            1 <= s,
    ;
    lemma_multiply_divide_lt((2 * d + 1) * s, 2 * n, s);
}

/// Reading the resampled image at the offset of pixel `(x, y)`, channel `c`,
/// gives that pixel's byte.
pub proof fn lemma_nn_image_byte(
    src: Seq<u8>,
    src_w: int,
    src_h: int,
    dst_w: int,
    dst_h: int,
    x: int,
    y: int,
    c: int,
)
    requires
        0 <= x < dst_w,
        0 <= y < dst_h,
        0 <= c < 4,
    ensures
        0 <= pixel_offset(x, y, dst_w, c) < dst_w * dst_h * 4,
        nn_image(src, src_w, src_h, dst_w, dst_h)[pixel_offset(x, y, dst_w, c)] == nn_pixel_byte(
            src,
            src_w,
            src_h,
            dst_w,
            dst_h,
            x,
            y,
            c,
        ),
{
    lemma_pixel_offset_decompose(x, y, dst_w, dst_h, c);
}

/// Resampling an image to its own dimensions with nearest-neighbor sampling
/// is the identity transform.
pub proof fn lemma_nn_identity(src: Seq<u8>, w: int, h: int)
    requires
        1 <= w,
        1 <= h,
        src.len() == w * h * 4,
    ensures
        nn_image(src, w, h, w, h) == src,
{
    assert forall|i: int| 0 <= i < w * h * 4 implies nn_image(src, w, h, w, h)[i] == src[i] by {
        lemma_index_decompose(i, w, h);
        let x = px_x(i, w);
        let y = px_y(i, w);
        assert((2 * x + 1) * w == x * (2 * w) + w) by (nonlinear_arith);
        vstd::arithmetic::div_mod::lemma_fundamental_div_mod_converse((2 * x + 1) * w, 2 * w, x, w);
        assert((2 * y + 1) * h == y * (2 * h) + h) by (nonlinear_arith);
        vstd::arithmetic::div_mod::lemma_fundamental_div_mod_converse((2 * y + 1) * h, 2 * h, y, h);
        assert(nn_src_coord(x, w, w) == x);
        assert(nn_src_coord(y, h, h) == y);
    }
    assert(nn_image(src, w, h, w, h) =~= src);
}

/// Fills the destination buffer with the nearest-neighbor resampling of the
/// source buffer. Dimensions must already have passed the validator and
/// both buffers must have exactly the byte length their dimensions require.
#[verifier::loop_isolation(false)]
pub(crate) fn resample_nearest(
    ctx: &mut ResizeContext,
    src: &Vec<u8>,
    src_w: u32,
    src_h: u32,
    dst: &mut Vec<u8>,
    dst_w: u32,
    dst_h: u32,
)
    requires
        dims_status(src_w, src_h, dst_w, dst_h) == RESIZE_OK,
        src@.len() == byte_size(src_w as int, src_h as int),
        old(dst)@.len() == byte_size(dst_w as int, dst_h as int),
    ensures
        final(dst)@ == nn_image(src@, src_w as int, src_h as int, dst_w as int, dst_h as int),
        final(ctx).last_error == old(ctx).last_error,
{
    proof {
        lemma_dims_ok_bounds(src_w, src_h, dst_w, dst_h);
    }
    let ghost target = nn_image(src@, src_w as int, src_h as int, dst_w as int, dst_h as int);
    ctx.x_nearest.clear();
    let mut x: u32 = 0;
    while x < dst_w
        invariant
            x <= dst_w,
            ctx.x_nearest@.len() == x as int,
            forall|j: int|
                0 <= j < x as int ==> #[trigger] ctx.x_nearest@[j] == 4 * nn_src_coord(
                    j,
                    src_w as int,
                    dst_w as int,
                ),
            ctx.last_error == old(ctx).last_error,
        decreases dst_w - x,
    {
        proof {
            lemma_nn_coord_in_range(x as int, src_w as int, dst_w as int);
            assert((2 * (x as int) + 1) * (src_w as int) <= (2 * 65535) * 65535)
                by (nonlinear_arith)
                requires
                    x < dst_w,
                    dst_w <= 65535,
                    src_w <= 65535,
            ;
        }
        let sx: u64 = ((2 * (x as u64) + 1) * (src_w as u64)) / (2 * (dst_w as u64));
        ctx.x_nearest.push((sx as usize) * 4);
        x = x + 1;
    }
    let mut y: u32 = 0;
    while y < dst_h
        invariant
            y <= dst_h,
            dst@.len() == old(dst)@.len(),
            forall|i: int|
                0 <= i < (y as int) * (dst_w as int) * 4 ==> #[trigger] dst@[i] == target[i],
            ctx.x_nearest@.len() == dst_w as int,
            forall|j: int|
                0 <= j < dst_w as int ==> #[trigger] ctx.x_nearest@[j] == 4 * nn_src_coord(
                    j,
                    src_w as int,
                    dst_w as int,
                ),
            ctx.last_error == old(ctx).last_error,
        decreases dst_h - y,
    {
        proof {
            lemma_nn_coord_in_range(y as int, src_h as int, dst_h as int);
            assert((2 * (y as int) + 1) * (src_h as int) <= (2 * 65535) * 65535)
                by (nonlinear_arith)
                requires
                    y < dst_h,
                    dst_h <= 65535,
                    src_h <= 65535,
            ;
        }
        let sy: u64 = ((2 * (y as u64) + 1) * (src_h as u64)) / (2 * (dst_h as u64));
        proof {
            assert(sy * src_w <= (src_h - 1) * src_w) by (nonlinear_arith)
                requires
                    sy <= src_h - 1,
                    0 <= src_w,
            ;
            assert((src_h - 1) * src_w + src_w == src_h * src_w == src_w * src_h)
                by (nonlinear_arith);
        }
        let row_off: usize = ((sy * (src_w as u64)) * 4) as usize;
        let mut xx: u32 = 0;
        while xx < dst_w
            invariant
                xx <= dst_w,
                dst@.len() == old(dst)@.len(),
                forall|i: int|
                    0 <= i < ((y as int) * (dst_w as int) + xx as int) * 4 ==> #[trigger] dst@[i]
                        == target[i],
                ctx.last_error == old(ctx).last_error,
            decreases dst_w - xx,
        {
            let sx4: usize = ctx.x_nearest[xx as usize];
            let ghost sx = nn_src_coord(xx as int, src_w as int, dst_w as int);
            let ghost syi = sy as int;
            proof {
                lemma_nn_coord_in_range(xx as int, src_w as int, dst_w as int);
                lemma_pixel_offset_decompose(sx, syi, src_w as int, src_h as int, 0);
                assert(src_w * src_h * 4 == byte_size(src_w as int, src_h as int));
                lemma_pixel_offset_decompose(xx as int, y as int, dst_w as int, dst_h as int, 0);
                assert(dst_w * dst_h * 4 == byte_size(dst_w as int, dst_h as int));
            }
            let sidx: usize = row_off + sx4;
            let didx: usize = ((((y as u64) * (dst_w as u64)) + (xx as u64)) * 4) as usize;
            let b0 = src[sidx];
            let b1 = src[sidx + 1];
            let b2 = src[sidx + 2];
            let b3 = src[sidx + 3];
            dst.set(didx, b0);
            dst.set(didx + 1, b1);
            dst.set(didx + 2, b2);
            dst.set(didx + 3, b3);
            proof {
                lemma_nn_image_byte(
                    src@, src_w as int, src_h as int, dst_w as int, dst_h as int,
                    xx as int, y as int, 0,
                );
                lemma_nn_image_byte(
                    src@, src_w as int, src_h as int, dst_w as int, dst_h as int,
                    xx as int, y as int, 1,
                );
                lemma_nn_image_byte(
                    src@, src_w as int, src_h as int, dst_w as int, dst_h as int,
                    xx as int, y as int, 2,
                );
                lemma_nn_image_byte(
                    src@, src_w as int, src_h as int, dst_w as int, dst_h as int,
                    xx as int, y as int, 3,
                );
            }
            xx = xx + 1;
        }
        proof {
            assert(((y as int) * (dst_w as int) + (dst_w as int)) * 4 == ((y as int) + 1) * (
            dst_w as int) * 4) by (nonlinear_arith);
        }
        y = y + 1;
    }
    proof {
        assert((dst_h as int) * (dst_w as int) * 4 == dst_w * dst_h * 4) by (nonlinear_arith);
        assert(dst@ =~= target);
    }
}

} // verus!
