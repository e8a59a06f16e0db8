use rgba_resize::{
    validate_dims, validate_params, ResizeContext, RESIZE_ERR_ALIGNMENT, RESIZE_ERR_INVALID_SIZE,
    RESIZE_ERR_NULL_PTR, RESIZE_ERR_OVERFLOW, RESIZE_ERR_OVERLAP, RESIZE_OK,
};

#[test]
fn null_pointer_takes_precedence() {
    let mut ctx = ResizeContext::new();
    // Zero dimensions, misalignment and overflow are all present, but the
    // null address is reported first.
    let r = validate_params(&mut ctx, 0, 0, 0, 3, 65535, 65535);
    assert_eq!(r, Err(RESIZE_ERR_NULL_PTR));
    assert_eq!(ctx.last_error, RESIZE_ERR_NULL_PTR);
    assert_eq!(ctx.get_last_error(), "NULL pointer");

    let r = validate_params(&mut ctx, 4096, 2, 2, 0, 2, 2);
    assert_eq!(r, Err(RESIZE_ERR_NULL_PTR));
}

#[test]
fn alignment_checked_after_null() {
    let mut ctx = ResizeContext::new();
    let r = validate_params(&mut ctx, 4098, 2, 2, 8192, 2, 2);
    assert_eq!(r, Err(RESIZE_ERR_ALIGNMENT));
    assert_eq!(ctx.get_last_error(), "Pointer alignment error");

    let r = validate_params(&mut ctx, 4096, 2, 2, 8193, 2, 2);
    assert_eq!(r, Err(RESIZE_ERR_ALIGNMENT));
}

#[test]
fn zero_dimension_rejected() {
    let mut ctx = ResizeContext::new();
    let r = validate_params(&mut ctx, 4096, 2, 0, 8192, 2, 2);
    assert_eq!(r, Err(RESIZE_ERR_INVALID_SIZE));
    assert_eq!(ctx.get_last_error(), "Invalid size or dimensions");
    assert_eq!(validate_dims(0, 2, 2, 2), Err(RESIZE_ERR_INVALID_SIZE));
    assert_eq!(validate_dims(2, 2, 2, 0), Err(RESIZE_ERR_INVALID_SIZE));
}

#[test]
fn byte_size_overflow_rejected() {
    // 65535 * 65535 * 4 exceeds the kernel's 32-bit size width: overflow,
    // not a wrapped or truncated size, and not the later bound checks.
    assert_eq!(validate_dims(65535, 65535, 2, 2), Err(RESIZE_ERR_OVERFLOW));
    assert_eq!(validate_dims(2, 2, 65535, 65535), Err(RESIZE_ERR_OVERFLOW));
    let mut ctx = ResizeContext::new();
    let r = validate_params(&mut ctx, 4096, 65535, 65535, 8192, 2, 2);
    assert_eq!(r, Err(RESIZE_ERR_OVERFLOW));
    assert_eq!(ctx.get_last_error(), "Overflow in size calculation");
}

#[test]
fn dimension_bound_rejected() {
    assert_eq!(validate_dims(70000, 1, 2, 2), Err(RESIZE_ERR_INVALID_SIZE));
    assert_eq!(validate_dims(2, 2, 1, 70000), Err(RESIZE_ERR_INVALID_SIZE));
}

#[test]
fn pixel_count_bound_rejected() {
    // 65535 * 5000 pixels is over the 256-megapixel bound but its byte size
    // still fits in 32 bits, so this is an invalid size, not overflow.
    assert_eq!(validate_dims(65535, 5000, 2, 2), Err(RESIZE_ERR_INVALID_SIZE));
}

#[test]
fn overlap_rejected() {
    let mut ctx = ResizeContext::new();
    // Source occupies [4096, 4112); a destination at 4100 intersects it.
    let r = validate_params(&mut ctx, 4096, 2, 2, 4100, 2, 2);
    assert_eq!(r, Err(RESIZE_ERR_OVERLAP));
    assert_eq!(ctx.last_error, RESIZE_ERR_OVERLAP);
    assert_eq!(ctx.get_last_error(), "Memory regions overlap");
    // Identical addresses always overlap.
    let r = validate_params(&mut ctx, 4096, 2, 2, 4096, 2, 2);
    assert_eq!(r, Err(RESIZE_ERR_OVERLAP));
}

#[test]
fn adjacent_ranges_accepted() {
    let mut ctx = ResizeContext::new();
    // Source occupies [4096, 4112); a destination starting at 4112 touches
    // but does not intersect.
    let r = validate_params(&mut ctx, 4096, 2, 2, 4112, 2, 2);
    assert_eq!(r, Ok((16, 16)));
    assert_eq!(ctx.last_error, RESIZE_OK);
    assert_eq!(ctx.get_last_error(), "OK");
}

#[test]
fn validator_computes_sizes() {
    assert_eq!(validate_dims(4, 4, 2, 2), Ok((64, 16)));
    assert_eq!(validate_dims(65535, 4096, 1, 1), Ok((65535 * 4096 * 4, 4)));
}

#[test]
fn unknown_code_described() {
    let mut ctx = ResizeContext::new();
    ctx.set_last_error(99);
    assert_eq!(ctx.get_last_error(), "Unknown error");
    assert_eq!(ctx.last_error, 99);
}
