use guest_rt::{
    as_i32, as_i64, bad_int, char_from_i32, get_func, get_memory, invalid_variant, validate_flags,
    CallContext, Extern, GuestError,
};

#[test]
fn char_from_i32_accepts_scalar_values() {
    assert_eq!(char_from_i32(0x41), Ok('A'));
    assert_eq!(char_from_i32(0), Ok('\0'));
    assert_eq!(char_from_i32(0x10FFFF), Ok('\u{10FFFF}'));
    assert_eq!(char_from_i32(0xE000), Ok('\u{E000}'));
}

#[test]
fn char_from_i32_rejects_out_of_range_codes() {
    assert_eq!(char_from_i32(0x110000), Err(GuestError::CharOutOfRange));
    assert_eq!(char_from_i32(0xD800), Err(GuestError::CharOutOfRange));
    assert_eq!(char_from_i32(0xDFFF), Err(GuestError::CharOutOfRange));
    assert_eq!(char_from_i32(-1), Err(GuestError::CharOutOfRange));
    assert_eq!(char_from_i32(i32::MIN), Err(GuestError::CharOutOfRange));
}

#[test]
fn validate_flags_rejects_bits_outside_the_mask() {
    let r: Result<u64, GuestError> = validate_flags(0b110, 0b011, "caps", |b| b);
    assert_eq!(
        r,
        Err(GuestError::InvalidFlags {
            name: "caps".to_string()
        })
    );
}

#[test]
fn validate_flags_constructs_from_valid_bits() {
    let r: Result<u64, GuestError> = validate_flags(0b011, 0b011, "caps", |b| b);
    assert_eq!(r, Ok(0b011));
    let doubled: Result<u64, GuestError> = validate_flags(0b001, 0b011, "caps", |b| b * 2);
    assert_eq!(doubled, Ok(0b010));
    let none: Result<u64, GuestError> = validate_flags(0, 0, "empty", |b| b);
    assert_eq!(none, Ok(0));
}

#[test]
fn invalid_variant_names_the_offending_type() {
    assert_eq!(
        invalid_variant("Color"),
        GuestError::InvalidDiscriminant {
            name: "Color".to_string()
        }
    );
}

#[test]
fn bad_int_marks_a_lossy_narrowing() {
    let err = u8::try_from(300i32).unwrap_err();
    assert_eq!(bad_int(err), GuestError::BadInt);
}

#[test]
fn widening_conversions_preserve_the_value() {
    assert_eq!(as_i32('A'), 65);
    assert_eq!(as_i32(250u8), 250);
    assert_eq!(as_i32(-1i8), -1);
    assert_eq!(as_i32(-12345i16), -12345);
    assert_eq!(as_i32(0xFFFFu16), 0xFFFF);
    assert_eq!(as_i32(7i32), 7);
    assert_eq!(as_i32(u32::MAX), -1);
    assert_eq!(as_i64(i64::MIN), i64::MIN);
    assert_eq!(as_i64(u64::MAX), -1);
}

#[test]
fn get_func_and_get_memory_resolve_exports_by_name() {
    let mut ctx = CallContext::new();
    ctx.add_export("memory".to_string(), Extern::Memory(7));
    ctx.add_export("run".to_string(), Extern::Func(3));
    ctx.add_export("table".to_string(), Extern::Other);
    assert_eq!(get_memory(&ctx, "memory"), Ok(7));
    assert_eq!(get_func(&ctx, "run"), Ok(3));
}

#[test]
fn export_lookup_distinguishes_missing_from_wrong_kind() {
    let mut ctx = CallContext::new();
    ctx.add_export("memory".to_string(), Extern::Memory(1));
    ctx.add_export("run".to_string(), Extern::Func(2));
    assert_eq!(
        get_func(&ctx, "start"),
        Err(GuestError::ExportNotFound {
            name: "start".to_string()
        })
    );
    assert_eq!(
        get_func(&ctx, "memory"),
        Err(GuestError::ExportNotAFunction {
            name: "memory".to_string()
        })
    );
    assert_eq!(
        get_memory(&ctx, "run"),
        Err(GuestError::ExportNotAMemory {
            name: "run".to_string()
        })
    );
    assert_eq!(
        get_memory(&ctx, "absent"),
        Err(GuestError::ExportNotFound {
            name: "absent".to_string()
        })
    );
}
