//! The per-caller resampling context.
//!
//! It bundles the last status code with the reusable lookup-table scratch
//! buffers, so a caller that resizes repeatedly keeps the scratch allocations
//! alive across calls. The lookup tables are pure caches: nothing outside the
//! resamplers may observe or depend on their contents between calls.

use vstd::prelude::*;

verus! {

use crate::status::{status_message, RESIZE_ERR_ALIGNMENT, RESIZE_ERR_INVALID_SIZE,
    RESIZE_ERR_MEMORY, RESIZE_ERR_NULL_PTR, RESIZE_ERR_OVERFLOW, RESIZE_ERR_OVERLAP, RESIZE_OK};

/// Caller-owned state for the resize kernel: the status code of the most
/// recent call, and scratch storage for the per-column lookup tables.
pub struct ResizeContext {
    /// The status code latched by the most recent call.
    pub last_error: i32,
    /// Scratch cache for the nearest-neighbor column table. No contract
    /// speaks of its contents between calls.
    pub x_nearest: Vec<usize>,
    /// Scratch cache for the bilinear left-column table.
    pub x0_bilinear: Vec<usize>,
    /// Scratch cache for the bilinear right-column table.
    pub x1_bilinear: Vec<usize>,
    /// Scratch cache for the bilinear column-weight table.
    pub fx_bilinear: Vec<u32>,
}

impl ResizeContext {
    /// A fresh context: no error recorded, empty scratch buffers.
    pub fn new() -> (ctx: ResizeContext)
        ensures
            ctx.last_error == RESIZE_OK,
    {
        ResizeContext {
            last_error: RESIZE_OK,
            x_nearest: Vec::new(),
            x0_bilinear: Vec::new(),
            x1_bilinear: Vec::new(),
            fx_bilinear: Vec::new(),
        }
    }

    /// Latches a status code as the outcome of the current call.
    pub fn set_last_error(&mut self, code: i32)
        ensures
            final(self).last_error == code,
            final(self).x_nearest == old(self).x_nearest,
            final(self).x0_bilinear == old(self).x0_bilinear,
            final(self).x1_bilinear == old(self).x1_bilinear,
            final(self).fx_bilinear == old(self).fx_bilinear,
    {
        self.last_error = code;
    }

    /// A human-readable description of the most recently latched status code.
    pub fn get_last_error(&self) -> (msg: &'static str)
        ensures
            msg@ == status_message(self.last_error),
    {
        if self.last_error == RESIZE_OK {
            "OK"
        } else if self.last_error == RESIZE_ERR_NULL_PTR {
            "NULL pointer"
        } else if self.last_error == RESIZE_ERR_INVALID_SIZE {
            "Invalid size or dimensions"
        } else if self.last_error == RESIZE_ERR_OVERFLOW {
            "Overflow in size calculation"
        } else if self.last_error == RESIZE_ERR_MEMORY {
            "Memory error"
        } else if self.last_error == RESIZE_ERR_ALIGNMENT {
            "Pointer alignment error"
        } else if self.last_error == RESIZE_ERR_OVERLAP {
            "Memory regions overlap"
        } else {
            "Unknown error"
        }
    }
}

} // verus!
