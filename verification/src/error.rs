//! Errors surfaced to generated glue code.
//!
//! Every failure of this layer is a distinct, named, recoverable value:
//! bounds errors, size/refcount overflow errors, invalid-encoding errors,
//! export-lookup errors and invalid-handle errors. Nothing here panics and
//! nothing is silently coerced.

use vstd::prelude::*;

verus! {

/// A failure reported to the immediate caller of a runtime primitive.
#[derive(Debug, Clone, PartialEq, Eq)]
pub enum GuestError {
    /// A write range fell outside the guest byte buffer.
    OutOfBoundsWrite,
    /// A read range fell outside the guest byte buffer.
    OutOfBoundsRead,
    /// An element count times the element size overflowed the address width.
    SliceTooLarge,
    /// A resource reference count would wrap past its maximum.
    RefcountOverflow,
    /// A 32-bit integer was not a valid Unicode scalar value.
    CharOutOfRange,
    /// An enum discriminant read from the guest matched no variant.
    InvalidDiscriminant { name: String },
    /// A flags value carried bits outside the valid mask.
    InvalidFlags { name: String },
    /// A narrowing integer conversion lost information.
    BadInt,
    /// No export of the requested name exists in the call context.
    ExportNotFound { name: String },
    /// The named export exists but is not a function.
    ExportNotAFunction { name: String },
    /// The named export exists but is not a memory.
    ExportNotAMemory { name: String },
    /// A guest-supplied handle integer is not currently live.
    InvalidHandleIndex,
}

} // verus!
