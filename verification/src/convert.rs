//! Validated conversions for primitive encodings crossing the boundary.
//!
//! Guest data might be garbage: a 32-bit integer posing as a char, a flags
//! word with undefined bits, an out-of-range discriminant, a lossy
//! narrowing. Each helper here turns such a value into an explicit, named
//! failure instead of undefined behavior, and each lossless widening is a
//! plain reinterpretation.

use vstd::prelude::*;

use crate::error::GuestError;

verus! {

/// `code` is a Unicode scalar value: not a surrogate and at most
/// `char::MAX`.
pub open spec fn is_scalar_value(code: i32) -> bool {
    (0 <= code < 0xD800) || (0xE000 <= code <= 0x10FFFF)
}

/// Relies on `core::char::from_u32`: it returns `Some` exactly for
/// Unicode scalar values (below the surrogate range or between the
/// surrogates' end and `char::MAX`), and the returned char has the given
/// scalar value.
pub assume_specification [ core::char::from_u32 ](i: u32) -> (r: Option<char>)
    ensures
        r is Some <==> (i < 0xD800 || (0xE000 <= i && i <= 0x10FFFF)),
        r is Some ==> r->Some_0 as u32 == i,
;

/// Converts a 32-bit integer read from the guest into a char, failing
/// with a distinct encoding error for anything that is not a Unicode
/// scalar value.
pub fn char_from_i32(val: i32) -> (r: Result<char, GuestError>)
    ensures
        r is Ok <==> is_scalar_value(val),
        r is Ok ==> r->Ok_0 as u32 == val,
        r is Err ==> r == Err::<char, GuestError>(GuestError::CharOutOfRange),
{
    proof {
        assert(val < 0 ==> (val as u32) >= 0x80000000) by (bit_vector);
        assert(val >= 0 ==> (val as u32) == val) by (bit_vector);
    }
    match core::char::from_u32(val as u32) {
        Some(c) => Ok(c),
        None => Err(GuestError::CharOutOfRange),
    }
}

/// A named, diagnosable error for an enum discriminant that matches no
/// variant of `name`.
pub fn invalid_variant(name: &str) -> (r: GuestError)
    ensures
        r matches GuestError::InvalidDiscriminant { name: n } && n@ == name@,
{
    GuestError::InvalidDiscriminant { name: name.to_owned() }
}

/// A named, diagnosable error for a narrowing integer conversion that
/// lost information.
pub fn bad_int(_err: core::num::TryFromIntError) -> (r: GuestError)
    ensures
        r == GuestError::BadInt,
{
    GuestError::BadInt
}

/// Checks a guest-supplied flags word against the mask of all defined
/// bits and, only if no undefined bit is set, hands it to the flag-set
/// constructor; a word carrying a bit outside the mask is a distinct,
/// named encoding error, so undefined bits can never reach host logic.
pub fn validate_flags<U, F: FnOnce(u64) -> U>(bits: u64, all: u64, name: &str, mk: F) -> (r: Result<
    U,
    GuestError,
>)
    requires
        bits & !all == 0 ==> call_requires(mk, (bits,)),
    ensures
        r is Ok <==> bits & !all == 0,
        r matches Ok(v) ==> call_ensures(mk, (bits,), v),
        r matches Err(e) ==> e matches GuestError::InvalidFlags { name: n } && n@ == name@,
{
    if bits & !all != 0 {
        Err(GuestError::InvalidFlags { name: name.to_owned() })
    } else {
        Ok(mk(bits))
    }
}

/// A primitive that widens losslessly (or, for `u32`, reinterprets
/// exactly) into the wire's `i32`.
pub trait AsI32: Sized + Copy {
    /// The `i32` the value converts to.
    spec fn as_i32_spec(self) -> i32;

    /// Converts into the wire representation.
    fn as_i32(self) -> (r: i32)
        ensures
            r == self.as_i32_spec(),
    ;
}

/// Converts a value into the wire's `i32` representation.
pub fn as_i32<T: AsI32>(t: T) -> (r: i32)
    ensures
        r == t.as_i32_spec(),
{
    t.as_i32()
}

impl AsI32 for char {
    open spec fn as_i32_spec(self) -> i32 {
        self as i32
    }

    fn as_i32(self) -> i32 {
        self as i32
    }
}

impl AsI32 for i8 {
    open spec fn as_i32_spec(self) -> i32 {
        self as i32
    }

    fn as_i32(self) -> i32 {
        self as i32
    }
}

impl AsI32 for u8 {
    open spec fn as_i32_spec(self) -> i32 {
        self as i32
    }

    fn as_i32(self) -> i32 {
        self as i32
    }
}

impl AsI32 for i16 {
    open spec fn as_i32_spec(self) -> i32 {
        self as i32
    }

    fn as_i32(self) -> i32 {
        self as i32
    }
}

impl AsI32 for u16 {
    open spec fn as_i32_spec(self) -> i32 {
        self as i32
    }

    fn as_i32(self) -> i32 {
        self as i32
    }
}

impl AsI32 for i32 {
    open spec fn as_i32_spec(self) -> i32 {
        self
    }

    fn as_i32(self) -> i32 {
        self
    }
}

impl AsI32 for u32 {
    open spec fn as_i32_spec(self) -> i32 {
        self as i32
    }

    fn as_i32(self) -> i32 {
        self as i32
    }
}

/// A primitive that widens losslessly (or, for `u64`, reinterprets
/// exactly) into the wire's `i64`.
pub trait AsI64: Sized + Copy {
    /// The `i64` the value converts to.
    spec fn as_i64_spec(self) -> i64;

    /// Converts into the wire representation.
    fn as_i64(self) -> (r: i64)
        ensures
            r == self.as_i64_spec(),
    ;
}

/// Converts a value into the wire's `i64` representation.
pub fn as_i64<T: AsI64>(t: T) -> (r: i64)
    ensures
        r == t.as_i64_spec(),
{
    t.as_i64()
}

impl AsI64 for i64 {
    open spec fn as_i64_spec(self) -> i64 {
        self
    }

    fn as_i64(self) -> i64 {
        self
    }
}

impl AsI64 for u64 {
    open spec fn as_i64_spec(self) -> i64 {
        self as i64
    }

    fn as_i64(self) -> i64 {
        self as i64
    }
}

} // verus!
