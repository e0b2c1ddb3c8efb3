//! Runtime support for exchanging typed values and opaque resources across a
//! host/guest memory boundary: a slot allocator issuing stable integer
//! indices, a refcounted resource table, bounds-checked little-endian typed
//! access to a raw byte buffer, and validated conversion helpers that turn
//! untrusted guest data into explicit failures.

pub mod context;
pub mod convert;
pub mod error;
pub mod le;
pub mod mem;
pub mod slab;
pub mod table;

pub use context::{get_func, get_memory, CallContext, Extern};
pub use convert::{as_i32, as_i64, bad_int, char_from_i32, invalid_variant, validate_flags, AsI32, AsI64};
pub use error::GuestError;
pub use le::{Endian, Le};
pub use mem::{copy_slice, RawMem};
pub use table::{IndexSlab, ResourceIndex, ResourceSlab};
