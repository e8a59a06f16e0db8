//! Status codes returned by every kernel operation, and the human-readable
//! description attached to each code.

use vstd::prelude::*;

verus! {

/// The call succeeded.
pub const RESIZE_OK: i32 = 0;

/// A buffer address was null.
pub const RESIZE_ERR_NULL_PTR: i32 = 1;

/// A dimension was zero or outside the supported bounds.
pub const RESIZE_ERR_INVALID_SIZE: i32 = 2;

/// A byte-size computation overflowed the kernel's 32-bit size width.
pub const RESIZE_ERR_OVERFLOW: i32 = 3;

/// A buffer did not have the byte length its dimensions require.
pub const RESIZE_ERR_MEMORY: i32 = 4;

/// A buffer address was not 4-byte aligned.
pub const RESIZE_ERR_ALIGNMENT: i32 = 5;

/// The source and destination byte ranges intersect.
pub const RESIZE_ERR_OVERLAP: i32 = 6;

/// The description attached to a status code.
pub open spec fn status_message(code: i32) -> Seq<char> {
    if code == RESIZE_OK {
        "OK"@
    } else if code == RESIZE_ERR_NULL_PTR {
        "NULL pointer"@
    } else if code == RESIZE_ERR_INVALID_SIZE {
        "Invalid size or dimensions"@
    } else if code == RESIZE_ERR_OVERFLOW {
        "Overflow in size calculation"@
    } else if code == RESIZE_ERR_MEMORY {
        "Memory error"@
    } else if code == RESIZE_ERR_ALIGNMENT {
        "Pointer alignment error"@
    } else if code == RESIZE_ERR_OVERLAP {
        "Memory regions overlap"@
    } else {
        "Unknown error"@
    }
}

} // verus!
