//! A verified RGBA image-resizing kernel.
//!
//! The kernel rescales a row-major RGBA pixel buffer (4 bytes per pixel) from
//! one width/height to another, choosing between nearest-neighbor sampling and
//! bilinear interpolation. Every call is validated first: dimensions must be
//! non-zero and within fixed bounds, byte sizes must not overflow, and for the
//! raw-address entry point the two buffers must be non-null, aligned and
//! disjoint. The resamplers carry full functional contracts: the destination
//! buffer is proved equal, byte for byte, to the mathematical resampling of
//! the source buffer.

pub mod bilinear;
pub mod context;
pub mod nearest;
pub mod pixel;
pub mod resize;
pub mod select;
pub mod status;
pub mod validate;

pub use context::ResizeContext;
pub use resize::{resize_rgba, resize_rgba_nearest};
pub use select::{is_integer_scaling, should_use_nearest_neighbor};
pub use status::{
    RESIZE_ERR_ALIGNMENT, RESIZE_ERR_INVALID_SIZE, RESIZE_ERR_MEMORY, RESIZE_ERR_NULL_PTR,
    RESIZE_ERR_OVERFLOW, RESIZE_ERR_OVERLAP, RESIZE_OK,
};
pub use validate::{validate_dims, validate_params, MAX_DIMENSION, MAX_PIXELS};
