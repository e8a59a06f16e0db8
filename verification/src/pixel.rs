//! The byte layout of an RGBA image: row-major, 4 bytes per pixel.
//!
//! Both resamplers state their contracts over whole images, so they share the
//! mapping between a flat byte index and the pixel coordinates it belongs to.

use vstd::prelude::*;

verus! {

use vstd::arithmetic::div_mod::{
    lemma_fundamental_div_mod, lemma_fundamental_div_mod_converse, lemma_mod_pos_bound,
    lemma_multiply_divide_lt,
};
use vstd::arithmetic::mul::lemma_mul_is_commutative;

/// The flat byte index of channel `c` of the pixel at column `x`, row `y` of
/// an image that is `w` pixels wide.
pub open spec fn pixel_offset(x: int, y: int, w: int, c: int) -> int {
    (y * w + x) * 4 + c
}

/// The column addressed by flat byte index `i` of an image `w` pixels wide.
pub open spec fn px_x(i: int, w: int) -> int {
    (i / 4) % w
}

/// The row addressed by flat byte index `i` of an image `w` pixels wide.
pub open spec fn px_y(i: int, w: int) -> int {
    (i / 4) / w
}

/// The channel addressed by flat byte index `i`.
pub open spec fn px_c(i: int) -> int {
    i % 4
}

/// `pixel_offset` stays inside the image and inverts the coordinate
/// projections `px_x`, `px_y`, `px_c`.
pub proof fn lemma_pixel_offset_decompose(x: int, y: int, w: int, h: int, c: int)
    requires
        0 <= x < w,
        0 <= y < h,
        0 <= c < 4,
    ensures
        0 <= pixel_offset(x, y, w, c) < w * h * 4,
        px_x(pixel_offset(x, y, w, c), w) == x,
        px_y(pixel_offset(x, y, w, c), w) == y,
        px_c(pixel_offset(x, y, w, c)) == c,
{
    let p = y * w + x;
    assert(y * w <= (h - 1) * w) by (nonlinear_arith)
        requires
            y <= h - 1,
            0 <= w,
    ;
    assert((h - 1) * w + w == h * w) by (nonlinear_arith);
    assert(h * w == w * h) by (nonlinear_arith);
    assert(0 <= p < w * h);
    let off = pixel_offset(x, y, w, c);
    assert(off == p * 4 + c);
    lemma_fundamental_div_mod_converse(off, 4, p, c);
    assert(y * w == w * y) by (nonlinear_arith);
    lemma_fundamental_div_mod_converse(p, w, y, x);
}

/// Every flat byte index of a `w` by `h` image is the offset of the pixel
/// coordinates it projects to.
pub proof fn lemma_index_decompose(i: int, w: int, h: int)
    requires
        1 <= w,
        1 <= h,
        0 <= i < w * h * 4,
    ensures
        0 <= px_x(i, w) < w,
        0 <= px_y(i, w) < h,
        0 <= px_c(i) < 4,
        i == pixel_offset(px_x(i, w), px_y(i, w), w, px_c(i)),
{
    let p = i / 4;
    assert(w * h * 4 == 4 * (w * h)) by (nonlinear_arith);
    lemma_multiply_divide_lt(i, 4, w * h);
    assert(0 <= p < w * h) by {
        vstd::arithmetic::div_mod::lemma_div_pos_is_pos(i, 4);
    }
    lemma_mod_pos_bound(i, 4);
    lemma_fundamental_div_mod(i, 4);
    lemma_mod_pos_bound(p, w);
    lemma_fundamental_div_mod(p, w);
    assert(w * h == h * w) by (nonlinear_arith);
    lemma_multiply_divide_lt(p, w, h);
    vstd::arithmetic::div_mod::lemma_div_pos_is_pos(p, w);
    lemma_mul_is_commutative(w, p / w);
    lemma_mul_is_commutative(4, p);
    assert(i == p * 4 + px_c(i));
    assert(p == px_y(i, w) * w + px_x(i, w));
}

} // verus!
