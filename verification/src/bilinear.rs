//! Bilinear resampling.
//!
//! Each destination pixel blends its four nearest source pixels under the
//! half-pixel-center mapping `src_coord = (d + 0.5) * src_dim / dst_dim - 0.5`.
//! With `den = 2 * dst_dim`, that coordinate is the exact rational
//! `num / den` where `num = (2*d + 1) * src_dim - dst_dim`; its floor gives
//! the left/top sample, the next coordinate (clamped to the edge) the
//! right/bottom sample, and its remainder the blend weight `num mod den` out
//! of `den`. All blending is exact integer arithmetic on those rationals:
//! `lerp(a, b, f/den) = floor((a * (den - f) + b * f) / den)`, applied per
//! channel, horizontally and then vertically.

use vstd::prelude::*;

verus! {

use vstd::arithmetic::div_mod::{lemma_div_is_ordered, lemma_div_multiples_vanish,
    lemma_div_pos_is_pos, lemma_fundamental_div_mod_converse, lemma_mod_bound,
    lemma_multiply_divide_lt};
use crate::context::ResizeContext;
use crate::pixel::{lemma_index_decompose, lemma_pixel_offset_decompose, pixel_offset, px_c, px_x,
    px_y};
use crate::validate::{byte_size, dims_status, lemma_dims_ok_bounds, MAX_DIMENSION};
use crate::status::RESIZE_OK;

/// Numerator of the source coordinate sampled for destination coordinate `d`,
/// over the implicit denominator `2 * n`: `(d + 0.5) * s / n - 0.5` written as
/// one exact fraction.
pub open spec fn bl_num(d: int, s: int, n: int) -> int {
    (2 * d + 1) * s - n
}

/// Floor of the sampled source coordinate: the unclamped left/top sample.
pub open spec fn bl_c0(d: int, s: int, n: int) -> int {
    bl_num(d, s, n) / (2 * n)
}

/// Blend weight toward the right/bottom sample, as a numerator over `2 * n`.
pub open spec fn bl_frac(d: int, s: int, n: int) -> int {
    bl_num(d, s, n) % (2 * n)
}

/// The left/top sample coordinate, clamped into the source dimension.
pub open spec fn bl_lo(d: int, s: int, n: int) -> int {
    let c0 = bl_c0(d, s, n);
    if c0 < 0 {
        0
    } else if c0 > s - 1 {
        s - 1
    } else {
        c0
    }
}

/// The right/bottom sample coordinate: one past the floor, clamped into the
/// source dimension (the edge pixel repeats at the borders).
pub open spec fn bl_hi(d: int, s: int, n: int) -> int {
    let c1 = if bl_c0(d, s, n) + 1 < s - 1 {
        bl_c0(d, s, n) + 1
    } else {
        s - 1
    };
    if c1 < 0 {
        0
    } else {
        c1
    }
}

/// Exact linear interpolation between `a` and `b` with weight `f / den`,
/// truncated toward zero (both ends and the weight are nonnegative).
pub open spec fn lerp(a: int, b: int, f: int, den: int) -> int {
    (a * (den - f) + b * f) / den
}

/// The byte of channel `c` of the destination pixel at `(x, y)` under
/// bilinear resampling: the horizontal blend of the two upper and the two
/// lower samples, then the vertical blend of those.
pub open spec fn bl_pixel_byte(
    src: Seq<u8>,
    src_w: int,
    src_h: int,
    dst_w: int,
    dst_h: int,
    x: int,
    y: int,
    c: int,
) -> u8 {
    let x0 = bl_lo(x, src_w, dst_w);
    let x1 = bl_hi(x, src_w, dst_w);
    let fx = bl_frac(x, src_w, dst_w);
    let y0 = bl_lo(y, src_h, dst_h);
    let y1 = bl_hi(y, src_h, dst_h);
    let fy = bl_frac(y, src_h, dst_h);
    let top = lerp(
        src[pixel_offset(x0, y0, src_w, c)] as int,
        src[pixel_offset(x1, y0, src_w, c)] as int,
        fx,
        2 * dst_w,
    );
    let bottom = lerp(
        src[pixel_offset(x0, y1, src_w, c)] as int,
        src[pixel_offset(x1, y1, src_w, c)] as int,
        fx,
        2 * dst_w,
    );
    lerp(top, bottom, fy, 2 * dst_h) as u8
}

/// The whole bilinear resampling of `src` to `dst_w` by `dst_h`.
pub open spec fn bl_image(src: Seq<u8>, src_w: int, src_h: int, dst_w: int, dst_h: int) -> Seq<
    u8,
> {
    Seq::new(
        (dst_w * dst_h * 4) as nat,
        |i: int|
            bl_pixel_byte(src, src_w, src_h, dst_w, dst_h, px_x(i, dst_w), px_y(i, dst_w), px_c(i)),
    )
}

/// Bounds of the sampled coordinates and the blend weight: the floor lies in
/// `[-1, s-1]`, both clamped samples lie inside the source dimension, and at
/// the left/top border (negative numerator) both samples are the edge pixel.
pub proof fn lemma_bl_axis_in_range(d: int, s: int, n: int)
    requires
        0 <= d < n,
        1 <= s,
    ensures
        -1 <= bl_c0(d, s, n) <= s - 1,
        0 <= bl_lo(d, s, n) <= bl_hi(d, s, n) <= s - 1,
        0 <= bl_frac(d, s, n) < 2 * n,
        bl_num(d, s, n) < 0 ==> bl_c0(d, s, n) == -1 && bl_frac(d, s, n) == bl_num(d, s, n) + 2
            * n,
        bl_num(d, s, n) >= 0 ==> bl_lo(d, s, n) == bl_c0(d, s, n),
{
    let num = bl_num(d, s, n);
    let den = 2 * n;
    assert(s - n <= num) by (nonlinear_arith)
        requires
            0 <= d,
            1 <= s,
            num == (2 * d + 1) * s - n,
    ;
    assert(num < den * s) by (nonlinear_arith)
        requires
            0 <= d < n,
            1 <= s,
            num == (2 * d + 1) * s - n,
            den == 2 * n,
    ;
    lemma_multiply_divide_lt(num, den, s);
    lemma_mod_bound(num, den);
    if num >= 0 {
        lemma_div_pos_is_pos(num, den);
    } else {
        assert(num == (-1) * den + (num + den)) by (nonlinear_arith);
        lemma_fundamental_div_mod_converse(num, den, -1, num + den);
    }
}

/// A lerp between channel values stays a channel value.
pub proof fn lemma_lerp_bounds(a: int, b: int, f: int, den: int)
    requires
        0 <= a <= 255,
        0 <= b <= 255,
        0 <= f <= den,
        0 < den,
    ensures
        0 <= lerp(a, b, f, den) <= 255,
{
    assert(0 <= a * (den - f) + b * f <= 255 * den) by (nonlinear_arith)
        requires
            0 <= a <= 255,
            0 <= b <= 255,
            0 <= f <= den,
    ;
    lemma_div_pos_is_pos(a * (den - f) + b * f, den);
    lemma_div_is_ordered(a * (den - f) + b * f, 255 * den, den);
    assert(255 * den == den * 255) by (nonlinear_arith);
    lemma_div_multiples_vanish(255, den);
}

/// A lerp with weight zero returns its left operand exactly.
pub proof fn lemma_lerp_zero(a: int, b: int, den: int)
    requires
        0 < den,
    ensures
        lerp(a, b, 0, den) == a,
{
    assert(a * (den - 0) + b * 0 == den * a) by (nonlinear_arith);
    lemma_div_multiples_vanish(a, den);
}

/// The blend of four channel values stays a channel value.
pub proof fn lemma_blend_in_range(
    p00: int,
    p10: int,
    p01: int,
    p11: int,
    fx: int,
    den_x: int,
    fy: int,
    den_y: int,
)
    requires
        0 <= p00 <= 255,
        0 <= p10 <= 255,
        0 <= p01 <= 255,
        0 <= p11 <= 255,
        0 <= fx <= den_x,
        0 < den_x,
        0 <= fy <= den_y,
        0 < den_y,
    ensures
        0 <= lerp(lerp(p00, p10, fx, den_x), lerp(p01, p11, fx, den_x), fy, den_y) <= 255,
{
    lemma_lerp_bounds(p00, p10, fx, den_x);
    lemma_lerp_bounds(p01, p11, fx, den_x);
    lemma_lerp_bounds(lerp(p00, p10, fx, den_x), lerp(p01, p11, fx, den_x), fy, den_y);
}

/// Reading the resampled image at the offset of pixel `(x, y)`, channel `c`,
/// gives that pixel's byte.
pub proof fn lemma_bl_image_byte(
    src: Seq<u8>,
    src_w: int,
    src_h: int,
    dst_w: int,
    dst_h: int,
    x: int,
    y: int,
    c: int,
)
    requires
        0 <= x < dst_w,
        0 <= y < dst_h,
        0 <= c < 4,
    ensures
        0 <= pixel_offset(x, y, dst_w, c) < dst_w * dst_h * 4,
        bl_image(src, src_w, src_h, dst_w, dst_h)[pixel_offset(x, y, dst_w, c)] == bl_pixel_byte(
            src,
            src_w,
            src_h,
            dst_w,
            dst_h,
            x,
            y,
            c,
        ),
{
    lemma_pixel_offset_decompose(x, y, dst_w, dst_h, c);
}

/// Resampling an image to its own dimensions with bilinear interpolation is
/// the identity transform: every weight is exactly zero, so every pixel
/// blends only with itself.
pub proof fn lemma_bl_identity(src: Seq<u8>, w: int, h: int)
    requires
        1 <= w,
        1 <= h,
        src.len() == w * h * 4,
    ensures
        bl_image(src, w, h, w, h) == src,
{
    assert forall|i: int| 0 <= i < w * h * 4 implies bl_image(src, w, h, w, h)[i] == src[i] by {
        lemma_index_decompose(i, w, h);
        let x = px_x(i, w);
        let y = px_y(i, w);
        let c = px_c(i);
        assert(bl_num(x, w, w) == x * (2 * w) + 0) by (nonlinear_arith);
        lemma_fundamental_div_mod_converse(bl_num(x, w, w), 2 * w, x, 0);
        assert(bl_num(y, h, h) == y * (2 * h) + 0) by (nonlinear_arith);
        lemma_fundamental_div_mod_converse(bl_num(y, h, h), 2 * h, y, 0);
        let x1 = bl_hi(x, w, w);
        let y1 = bl_hi(y, h, h);
        lemma_lerp_zero(
            src[pixel_offset(x, y, w, c)] as int,
            src[pixel_offset(x1, y, w, c)] as int,
            2 * w,
        );
        lemma_lerp_zero(
            src[pixel_offset(x, y1, w, c)] as int,
            src[pixel_offset(x1, y1, w, c)] as int,
            2 * w,
        );
        lemma_lerp_zero(
            src[pixel_offset(x, y, w, c)] as int,
            src[pixel_offset(x, y1, w, c)] as int,
            2 * h,
        );
    }
    assert(bl_image(src, w, h, w, h) =~= src);
}

/// The two clamped sample coordinates and the blend-weight numerator for
/// destination coordinate `d`, computed exactly in integers.
fn bl_axis_params(d: u32, s: u32, n: u32) -> (r: (u32, u32, u32))
    requires
        0 < s <= MAX_DIMENSION,
        0 < n <= MAX_DIMENSION,
        d < n,
    ensures
        r.0 == bl_lo(d as int, s as int, n as int),
        r.1 == bl_hi(d as int, s as int, n as int),
        r.2 == bl_frac(d as int, s as int, n as int),
        r.0 <= r.1 < s,
        r.2 < 2 * n,
{
    proof {
        lemma_bl_axis_in_range(d as int, s as int, n as int);
        assert((2 * (d as int) + 1) * (s as int) <= (2 * 65535) * 65535) by (nonlinear_arith)
            requires
                d < n,
                n <= 65535,
                s <= 65535,
        ;
    }
    let t: u64 = (2 * (d as u64) + 1) * (s as u64);
    let den: u64 = 2 * (n as u64);
    if t < (n as u64) {
        let fr: u64 = t + den - (n as u64);
        (0, 0, fr as u32)
    } else {
        let num: u64 = t - (n as u64);
        let q: u64 = num / den;
        let r: u64 = num % den;
        let hi: u32 = if q + 1 < (s as u64) {
            (q + 1) as u32
        } else {
            s - 1
        };
        (q as u32, hi, r as u32)
    }
}

/// One exact linear interpolation step on a channel: `floor((a * (den - f) +
/// b * f) / den)`.
fn lerp_channel(a: u8, b: u8, f: u32, den: u32) -> (r: u8)
    requires
        0 < den <= 131070,
        f <= den,
    ensures
        r as int == lerp(a as int, b as int, f as int, den as int),
{
    proof {
        lemma_lerp_bounds(a as int, b as int, f as int, den as int);
        assert((a as int) * ((den - f) as int) <= 255 * 131070 && (b as int) * (f as int) <= 255
            * 131070) by (nonlinear_arith)
            requires
                a <= 255,
                b <= 255,
                f <= den,
                den <= 131070,
        ;
    }
    let num: u64 = (a as u64) * ((den - f) as u64) + (b as u64) * (f as u64);
    let q: u64 = num / (den as u64);
    q as u8
}

/// The full per-channel blend: horizontal between the two upper and the two
/// lower samples, then vertical between those results.
fn blend_channel(
    p00: u8,
    p10: u8,
    p01: u8,
    p11: u8,
    fx: u32,
    den_x: u32,
    fy: u32,
    den_y: u32,
) -> (r: u8)
    requires
        0 < den_x <= 131070,
        fx <= den_x,
        0 < den_y <= 131070,
        fy <= den_y,
    ensures
        r as int == lerp(
            lerp(p00 as int, p10 as int, fx as int, den_x as int),
            lerp(p01 as int, p11 as int, fx as int, den_x as int),
            fy as int,
            den_y as int,
        ),
{
    proof {
        lemma_lerp_bounds(p00 as int, p10 as int, fx as int, den_x as int);
        lemma_lerp_bounds(p01 as int, p11 as int, fx as int, den_x as int);
    }
    let top = lerp_channel(p00, p10, fx, den_x);
    let bottom = lerp_channel(p01, p11, fx, den_x);
    lerp_channel(top, bottom, fy, den_y)
}

/// The four channel bytes of the source pixel starting at byte `off`.
fn fetch_pixel(src: &Vec<u8>, off: usize) -> (p: (u8, u8, u8, u8))
    requires
        off + 3 < src.len(),
    ensures
        p.0 == src@[off as int],
        p.1 == src@[off as int + 1],
        p.2 == src@[off as int + 2],
        p.3 == src@[off as int + 3],
{
    (src[off], src[off + 1], src[off + 2], src[off + 3])
}

/// Fills the destination buffer with the bilinear resampling of the source
/// buffer. Dimensions must already have passed the validator and both
/// buffers must have exactly the byte length their dimensions require.
#[verifier::loop_isolation(false)]
pub(crate) fn resample_bilinear(
    ctx: &mut ResizeContext,
    src: &Vec<u8>,
    src_w: u32,
    src_h: u32,
    dst: &mut Vec<u8>,
    dst_w: u32,
    dst_h: u32,
)
    requires
        dims_status(src_w, src_h, dst_w, dst_h) == RESIZE_OK,
        src@.len() == byte_size(src_w as int, src_h as int),
        old(dst)@.len() == byte_size(dst_w as int, dst_h as int),
    ensures
        final(dst)@ == bl_image(src@, src_w as int, src_h as int, dst_w as int, dst_h as int),
        final(ctx).last_error == old(ctx).last_error,
{
    proof {
        lemma_dims_ok_bounds(src_w, src_h, dst_w, dst_h);
    }
    let ghost target = bl_image(src@, src_w as int, src_h as int, dst_w as int, dst_h as int);
    let den_x: u32 = 2 * dst_w;
    let den_y: u32 = 2 * dst_h;
    ctx.x0_bilinear.clear();
    ctx.x1_bilinear.clear();
    ctx.fx_bilinear.clear();
    let mut x: u32 = 0;
    while x < dst_w
        invariant
            x <= dst_w,
            ctx.x0_bilinear@.len() == x as int,
            ctx.x1_bilinear@.len() == x as int,
            ctx.fx_bilinear@.len() == x as int,
            forall|j: int|
                0 <= j < x as int ==> #[trigger] ctx.x0_bilinear@[j] == 4 * bl_lo(
                    j,
                    src_w as int,
                    dst_w as int,
                ),
            forall|j: int|
                0 <= j < x as int ==> #[trigger] ctx.x1_bilinear@[j] == 4 * bl_hi(
                    j,
                    src_w as int,
                    dst_w as int,
                ),
            forall|j: int|
                0 <= j < x as int ==> #[trigger] ctx.fx_bilinear@[j] == bl_frac(
                    j,
                    src_w as int,
                    dst_w as int,
                ),
            ctx.last_error == old(ctx).last_error,
        decreases dst_w - x,
    {
        let (lo, hi, fr) = bl_axis_params(x, src_w, dst_w);
        ctx.x0_bilinear.push((lo as usize) * 4);
        ctx.x1_bilinear.push((hi as usize) * 4);
        ctx.fx_bilinear.push(fr);
        x = x + 1;
    }
    let mut y: u32 = 0;
    while y < dst_h
        invariant
            y <= dst_h,
            dst@.len() == old(dst)@.len(),
            forall|i: int|
                0 <= i < (y as int) * (dst_w as int) * 4 ==> #[trigger] dst@[i] == target[i],
            ctx.x0_bilinear@.len() == dst_w as int,
            ctx.x1_bilinear@.len() == dst_w as int,
            ctx.fx_bilinear@.len() == dst_w as int,
            forall|j: int|
                0 <= j < dst_w as int ==> #[trigger] ctx.x0_bilinear@[j] == 4 * bl_lo(
                    j,
                    src_w as int,
                    dst_w as int,
                ),
            forall|j: int|
                0 <= j < dst_w as int ==> #[trigger] ctx.x1_bilinear@[j] == 4 * bl_hi(
                    j,
                    src_w as int,
                    dst_w as int,
                ),
            forall|j: int|
                0 <= j < dst_w as int ==> #[trigger] ctx.fx_bilinear@[j] == bl_frac(
                    j,
                    src_w as int,
                    dst_w as int,
                ),
            ctx.last_error == old(ctx).last_error,
        decreases dst_h - y,
    {
        let (y_lo, y_hi, fy) = bl_axis_params(y, src_h, dst_h);
        proof {
            assert((y_lo as int) * (src_w as int) <= (src_h - 1) * src_w && (y_hi as int) * (
            src_w as int) <= (src_h - 1) * src_w) by (nonlinear_arith)
                requires
                    y_lo <= src_h - 1,
                    y_hi <= src_h - 1,
                    0 <= src_w,
            ;
            assert((src_h - 1) * src_w + src_w == src_h * src_w == src_w * src_h)
                by (nonlinear_arith);
        }
        let y0_off: usize = (((y_lo as u64) * (src_w as u64)) * 4) as usize;
        let y1_off: usize = (((y_hi as u64) * (src_w as u64)) * 4) as usize;
        let mut xx: u32 = 0;
        while xx < dst_w
            invariant
                xx <= dst_w,
                dst@.len() == old(dst)@.len(),
                forall|i: int|
                    0 <= i < ((y as int) * (dst_w as int) + xx as int) * 4 ==> #[trigger] dst@[i]
                        == target[i],
                ctx.last_error == old(ctx).last_error,
            decreases dst_w - xx,
        {
            let x0b: usize = ctx.x0_bilinear[xx as usize];
            let x1b: usize = ctx.x1_bilinear[xx as usize];
            let fx: u32 = ctx.fx_bilinear[xx as usize];
            let ghost xl = bl_lo(xx as int, src_w as int, dst_w as int);
            let ghost xh = bl_hi(xx as int, src_w as int, dst_w as int);
            let ghost yl = y_lo as int;
            let ghost yh = y_hi as int;
            proof {
                lemma_bl_axis_in_range(xx as int, src_w as int, dst_w as int);
                lemma_pixel_offset_decompose(xl, yl, src_w as int, src_h as int, 3);
                lemma_pixel_offset_decompose(xh, yl, src_w as int, src_h as int, 3);
                lemma_pixel_offset_decompose(xl, yh, src_w as int, src_h as int, 3);
                lemma_pixel_offset_decompose(xh, yh, src_w as int, src_h as int, 3);
                assert(src_w * src_h * 4 == byte_size(src_w as int, src_h as int));
                lemma_pixel_offset_decompose(xx as int, y as int, dst_w as int, dst_h as int, 0);
                assert(dst_w * dst_h * 4 == byte_size(dst_w as int, dst_h as int));
            }
            let p00 = fetch_pixel(src, y0_off + x0b);
            let p10 = fetch_pixel(src, y0_off + x1b);
            let p01 = fetch_pixel(src, y1_off + x0b);
            let p11 = fetch_pixel(src, y1_off + x1b);
            let r0 = blend_channel(p00.0, p10.0, p01.0, p11.0, fx, den_x, fy, den_y);
            let r1 = blend_channel(p00.1, p10.1, p01.1, p11.1, fx, den_x, fy, den_y);
            let r2 = blend_channel(p00.2, p10.2, p01.2, p11.2, fx, den_x, fy, den_y);
            let r3 = blend_channel(p00.3, p10.3, p01.3, p11.3, fx, den_x, fy, den_y);
            let didx: usize = ((((y as u64) * (dst_w as u64)) + (xx as u64)) * 4) as usize;
            proof {
                lemma_blend_in_range(
                    p00.0 as int, p10.0 as int, p01.0 as int, p11.0 as int,
                    fx as int, den_x as int, fy as int, den_y as int,
                );
                lemma_blend_in_range(
                    p00.1 as int, p10.1 as int, p01.1 as int, p11.1 as int,
                    fx as int, den_x as int, fy as int, den_y as int,
                );
                lemma_blend_in_range(
                    p00.2 as int, p10.2 as int, p01.2 as int, p11.2 as int,
                    fx as int, den_x as int, fy as int, den_y as int,
                );
                lemma_blend_in_range(
                    p00.3 as int, p10.3 as int, p01.3 as int, p11.3 as int,
                    fx as int, den_x as int, fy as int, den_y as int,
                );
            }
            dst.set(didx, r0);
            dst.set(didx + 1, r1);
            dst.set(didx + 2, r2);
            dst.set(didx + 3, r3);
            proof {
                lemma_bl_image_byte(
                    src@, src_w as int, src_h as int, dst_w as int, dst_h as int,
                    xx as int, y as int, 0,
                );
                lemma_bl_image_byte(
                    src@, src_w as int, src_h as int, dst_w as int, dst_h as int,
                    xx as int, y as int, 1,
                );
                lemma_bl_image_byte(
                    src@, src_w as int, src_h as int, dst_w as int, dst_h as int,
                    xx as int, y as int, 2,
                );
                lemma_bl_image_byte(
                    src@, src_w as int, src_h as int, dst_w as int, dst_h as int,
                    xx as int, y as int, 3,
                );
            }
            xx = xx + 1;
        }
        proof {
            assert(((y as int) * (dst_w as int) + (dst_w as int)) * 4 == ((y as int) + 1) * (
            dst_w as int) * 4) by (nonlinear_arith);
        }
        y = y + 1;
    }
    proof {
        assert((dst_h as int) * (dst_w as int) * 4 == dst_w * dst_h * 4) by (nonlinear_arith);
        assert(dst@ =~= target);
    }
}

} // verus!
