use rgba_resize::{
    is_integer_scaling, resize_rgba, resize_rgba_nearest, should_use_nearest_neighbor,
    ResizeContext, RESIZE_ERR_INVALID_SIZE, RESIZE_ERR_MEMORY, RESIZE_OK,
};

fn solid(w: u32, h: u32, pixel: [u8; 4]) -> Vec<u8> {
    let mut buf: Vec<u8> = Vec::new();
    for _ in 0..(w * h) {
        buf.extend_from_slice(&pixel);
    }
    buf
}

#[test]
fn nearest_solid_red_downscale() {
    let mut ctx = ResizeContext::new();
    let src = solid(4, 4, [255, 0, 0, 255]);
    let mut dst = vec![0u8; 2 * 2 * 4];
    let code = resize_rgba_nearest(&mut ctx, &src, 4, 4, &mut dst, 2, 2);
    assert_eq!(code, RESIZE_OK);
    assert_eq!(ctx.last_error, RESIZE_OK);
    assert_eq!(dst, solid(2, 2, [255, 0, 0, 255]));
}

#[test]
fn nearest_samples_center_columns() {
    // 4x1 -> 2x1 center-sample mapping picks source columns 1 and 3.
    let mut ctx = ResizeContext::new();
    let src = vec![
        10, 11, 12, 13, //
        20, 21, 22, 23, //
        30, 31, 32, 33, //
        40, 41, 42, 43,
    ];
    let mut dst = vec![0u8; 2 * 4];
    let code = resize_rgba_nearest(&mut ctx, &src, 4, 1, &mut dst, 2, 1);
    assert_eq!(code, RESIZE_OK);
    assert_eq!(dst, vec![20, 21, 22, 23, 40, 41, 42, 43]);
}

#[test]
fn bilinear_ramp_upscale() {
    // 2x1 black-to-white resized to 4x1: a monotonically increasing gray
    // ramp whose outer pixels equal the edge-clamped source endpoints.
    let mut ctx = ResizeContext::new();
    let src = vec![0, 0, 0, 255, 255, 255, 255, 255];
    let mut dst = vec![0u8; 4 * 4];
    let code = resize_rgba(&mut ctx, &src, 2, 1, &mut dst, 4, 1);
    assert_eq!(code, RESIZE_OK);
    let expected = vec![
        0, 0, 0, 255, //
        63, 63, 63, 255, //
        191, 191, 191, 255, //
        255, 255, 255, 255,
    ];
    assert_eq!(dst, expected);
    for px in 0..3 {
        assert!(dst[px * 4] <= dst[(px + 1) * 4]);
    }
}

#[test]
fn bilinear_blends_four_neighbors() {
    // 2x2 -> 1x1: the single output pixel averages all four source pixels,
    // truncating toward zero.
    let mut ctx = ResizeContext::new();
    let src = vec![
        10, 0, 0, 255, //
        20, 0, 0, 255, //
        30, 0, 0, 255, //
        40, 0, 0, 255,
    ];
    let mut dst = vec![0u8; 4];
    let code = resize_rgba(&mut ctx, &src, 2, 2, &mut dst, 1, 1);
    assert_eq!(code, RESIZE_OK);
    assert_eq!(dst, vec![25, 0, 0, 255]);
}

#[test]
fn nearest_identity() {
    let mut ctx = ResizeContext::new();
    let src: Vec<u8> = (0..(3 * 2 * 4)).map(|i| (i * 7 % 256) as u8).collect();
    let mut dst = vec![0u8; 3 * 2 * 4];
    let code = resize_rgba_nearest(&mut ctx, &src, 3, 2, &mut dst, 3, 2);
    assert_eq!(code, RESIZE_OK);
    assert_eq!(dst, src);
}

#[test]
fn bilinear_identity() {
    // Same dimensions never downscale, so the selector picks bilinear, and
    // bilinear at matching coordinates has weight zero everywhere.
    let mut ctx = ResizeContext::new();
    let src: Vec<u8> = (0..(3 * 2 * 4)).map(|i| (i * 13 % 256) as u8).collect();
    let mut dst = vec![0u8; 3 * 2 * 4];
    let code = resize_rgba(&mut ctx, &src, 3, 2, &mut dst, 3, 2);
    assert_eq!(code, RESIZE_OK);
    assert_eq!(dst, src);
}

#[test]
fn zero_dimension_leaves_destination() {
    let mut ctx = ResizeContext::new();
    let src = solid(2, 2, [1, 2, 3, 4]);
    let mut dst = vec![0xAAu8; 16];
    let code = resize_rgba(&mut ctx, &src, 2, 2, &mut dst, 0, 2);
    assert_eq!(code, RESIZE_ERR_INVALID_SIZE);
    assert_eq!(dst, vec![0xAAu8; 16]);
    let code = resize_rgba_nearest(&mut ctx, &src, 2, 0, &mut dst, 2, 2);
    assert_eq!(code, RESIZE_ERR_INVALID_SIZE);
    assert_eq!(dst, vec![0xAAu8; 16]);
}

#[test]
fn wrong_buffer_length_is_memory_error() {
    let mut ctx = ResizeContext::new();
    let src = vec![0u8; 15];  // one byte short of 2x2 RGBA
    let mut dst = vec![0xAAu8; 16];
    let code = resize_rgba(&mut ctx, &src, 2, 2, &mut dst, 2, 2);
    assert_eq!(code, RESIZE_ERR_MEMORY);
    assert_eq!(ctx.get_last_error(), "Memory error");
    assert_eq!(dst, vec![0xAAu8; 16]);

    let src = vec![0u8; 16];
    let mut short_dst = vec![0xAAu8; 12];
    let code = resize_rgba_nearest(&mut ctx, &src, 2, 2, &mut short_dst, 2, 2);
    assert_eq!(code, RESIZE_ERR_MEMORY);
    assert_eq!(short_dst, vec![0xAAu8; 12]);
}

#[test]
fn forced_nearest_matches_nearest_path() {
    // A 16x downscale exceeds every threshold, so the automatic path must
    // produce bit-for-bit the nearest-neighbor-only result.
    let mut ctx = ResizeContext::new();
    let (sw, sh, dw, dh) = (1600u32, 1600u32, 100u32, 100u32);
    assert!(should_use_nearest_neighbor(sw, sh, dw, dh));
    let src: Vec<u8> = (0..(sw * sh * 4)).map(|i| (i % 251) as u8).collect();
    let mut auto_dst = vec![0u8; (dw * dh * 4) as usize];
    let mut nn_dst = vec![1u8; (dw * dh * 4) as usize];
    assert_eq!(resize_rgba(&mut ctx, &src, sw, sh, &mut auto_dst, dw, dh), RESIZE_OK);
    assert_eq!(resize_rgba_nearest(&mut ctx, &src, sw, sh, &mut nn_dst, dw, dh), RESIZE_OK);
    assert_eq!(auto_dst, nn_dst);
}

#[test]
fn selector_forces_nearest_beyond_eight_fold() {
    // More than 8x downscale on either axis forces nearest-neighbor sampling
    // whatever the source size, including a 200x downscale of a huge image.
    assert!(should_use_nearest_neighbor(20000, 20000, 100, 100));
    assert!(should_use_nearest_neighbor(900, 100, 100, 100));
    assert!(should_use_nearest_neighbor(100, 900, 100, 100));
}

#[test]
fn selector_never_picks_nearest_for_upscaling() {
    assert!(!should_use_nearest_neighbor(100, 100, 100, 100));
    assert!(!should_use_nearest_neighbor(100, 100, 800, 600));
    assert!(!should_use_nearest_neighbor(2, 1, 4, 1));
}

#[test]
fn selector_threshold_depends_on_image_size() {
    // Small source (under 1 megapixel): bilinear up to 8x downscaling.
    assert!(!should_use_nearest_neighbor(800, 800, 100, 100));
    // Medium source (1 to 10 megapixels): nearest beyond 4x downscaling.
    assert!(should_use_nearest_neighbor(2000, 2000, 400, 400));
    assert!(!should_use_nearest_neighbor(2000, 2000, 600, 600));
    // Large source (over 10 megapixels): nearest beyond 2x downscaling.
    assert!(should_use_nearest_neighbor(4000, 4000, 1500, 1500));
    assert!(!should_use_nearest_neighbor(4000, 4000, 2100, 2100));
}

#[test]
fn integer_scaling_detection() {
    assert_eq!(is_integer_scaling(2000, 900, 1000, 300), (true, true));
    assert_eq!(is_integer_scaling(1000, 300, 2000, 900), (true, true));
    assert_eq!(is_integer_scaling(1500, 500, 1000, 250), (false, true));
    assert_eq!(is_integer_scaling(1000, 1000, 999, 500), (false, true));
}

#[test]
fn repeated_calls_reuse_one_context() {
    // The context carries the lookup-table scratch across calls; results must
    // not depend on what an earlier call of either algorithm left behind.
    let mut ctx = ResizeContext::new();
    let src = solid(8, 8, [9, 8, 7, 6]);
    let mut wide = vec![0u8; 16 * 16 * 4];
    assert_eq!(resize_rgba(&mut ctx, &src, 8, 8, &mut wide, 16, 16), RESIZE_OK);
    let mut tiny = vec![0u8; 4];
    assert_eq!(resize_rgba(&mut ctx, &src, 8, 8, &mut tiny, 1, 1), RESIZE_OK);
    assert_eq!(tiny, vec![9, 8, 7, 6]);
    let mut again = vec![0u8; 16 * 16 * 4];
    assert_eq!(resize_rgba(&mut ctx, &src, 8, 8, &mut again, 16, 16), RESIZE_OK);
    assert_eq!(wide, again);
    assert_eq!(wide, solid(16, 16, [9, 8, 7, 6]));
}
