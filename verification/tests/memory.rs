use guest_rt::{copy_slice, Endian, GuestError, Le, RawMem};

#[test]
fn store_then_load_roundtrip_u32() {
    let mut buf: Vec<u8> = vec![0; 16];
    assert_eq!(buf.store(4, 0xDEAD_BEEFu32), Ok(()));
    assert_eq!(buf.load::<u32>(4), Ok(0xDEAD_BEEF));
}

#[test]
fn store_uses_fixed_little_endian_order() {
    let mut buf: Vec<u8> = vec![0; 4];
    assert_eq!(buf.store(0, 0x0102_0304u32), Ok(()));
    assert_eq!(&buf[..], &[0x04, 0x03, 0x02, 0x01]);
}

#[test]
fn roundtrip_every_width() {
    let mut buf: Vec<u8> = vec![0; 8];
    assert_eq!(buf.store(1, 0xABu8), Ok(()));
    assert_eq!(buf.load::<u8>(1), Ok(0xAB));
    assert_eq!(buf.store(2, 0xBEEFu16), Ok(()));
    assert_eq!(buf.load::<u16>(2), Ok(0xBEEF));
    assert_eq!(buf.store(0, u64::MAX - 7), Ok(()));
    assert_eq!(buf.load::<u64>(0), Ok(u64::MAX - 7));
    assert_eq!(buf.store(3, -7i8), Ok(()));
    assert_eq!(buf.load::<i8>(3), Ok(-7));
    assert_eq!(buf.store(4, -12345i16), Ok(()));
    assert_eq!(buf.load::<i16>(4), Ok(-12345));
    assert_eq!(buf.store(2, i32::MIN + 3), Ok(()));
    assert_eq!(buf.load::<i32>(2), Ok(i32::MIN + 3));
    assert_eq!(buf.store(0, i64::MIN), Ok(()));
    assert_eq!(buf.load::<i64>(0), Ok(i64::MIN));
}

#[test]
fn store_out_of_bounds_is_an_error_and_writes_nothing() {
    let mut buf: Vec<u8> = vec![7; 3];
    assert_eq!(buf.store(0, 0x0102_0304u32), Err(GuestError::OutOfBoundsWrite));
    assert_eq!(&buf[..], &[7, 7, 7]);
    assert_eq!(buf.store(2, 0xBEEFu16), Err(GuestError::OutOfBoundsWrite));
    assert_eq!(&buf[..], &[7, 7, 7]);
    assert_eq!(buf.store(-1, 0u8), Err(GuestError::OutOfBoundsWrite));
    assert_eq!(&buf[..], &[7, 7, 7]);
}

#[test]
fn load_out_of_bounds_is_an_error() {
    let buf: Vec<u8> = vec![0; 3];
    assert_eq!(buf.load::<u32>(0), Err(GuestError::OutOfBoundsRead));
    assert_eq!(buf.load::<u16>(2), Err(GuestError::OutOfBoundsRead));
    assert_eq!(buf.load::<u8>(-1), Err(GuestError::OutOfBoundsRead));
    assert_eq!(buf.load::<u8>(3), Err(GuestError::OutOfBoundsRead));
}

#[test]
fn store_many_writes_a_contiguous_run() {
    let mut buf: Vec<u8> = vec![0xFF; 8];
    assert_eq!(buf.store_many(1, &vec![0x0102u16, 0x0304, 0x0506]), Ok(()));
    assert_eq!(&buf[..], &[0xFF, 0x02, 0x01, 0x04, 0x03, 0x06, 0x05, 0xFF]);
}

#[test]
fn store_many_out_of_bounds_is_an_error_and_writes_nothing() {
    let mut buf: Vec<u8> = vec![9; 5];
    assert_eq!(
        buf.store_many(0, &vec![1u16, 2, 3]),
        Err(GuestError::OutOfBoundsWrite)
    );
    assert_eq!(&buf[..], &[9, 9, 9, 9, 9]);
    assert_eq!(
        buf.store_many(-2, &vec![1u8]),
        Err(GuestError::OutOfBoundsWrite)
    );
    assert_eq!(&buf[..], &[9, 9, 9, 9, 9]);
}

#[test]
fn copy_slice_decodes_consecutive_elements() {
    let data: Vec<u8> = vec![0x01, 0x00, 0x02, 0x00, 0xFF, 0xFF];
    assert_eq!(copy_slice::<u16>(&data, 0, 3, 2), Ok(vec![1, 2, 0xFFFF]));
    assert_eq!(copy_slice::<i16>(&data, 2, 2, 2), Ok(vec![2, -1]));
    assert_eq!(copy_slice::<u8>(&data, 4, 2, 1), Ok(vec![0xFF, 0xFF]));
}

#[test]
fn copy_slice_len_zero_reads_nothing() {
    let data: Vec<u8> = vec![1, 2, 3];
    assert_eq!(copy_slice::<u32>(&data, 3, 0, 4), Ok(vec![]));
}

#[test]
fn copy_slice_overflowing_count_is_a_distinct_error() {
    // len reinterpreted as u32 is 0xFFFF_FFFF; times four overflows 32-bit
    // arithmetic, so this must be the overflow error, not a wrapped read.
    let data: Vec<u8> = vec![0; 8];
    assert_eq!(
        copy_slice::<u32>(&data, 0, -1, 4),
        Err(GuestError::SliceTooLarge)
    );
}

#[test]
fn copy_slice_out_of_bounds_is_a_bounds_error() {
    let data: Vec<u8> = vec![0; 8];
    assert_eq!(
        copy_slice::<u32>(&data, 8, 1, 4),
        Err(GuestError::OutOfBoundsRead)
    );
    assert_eq!(
        copy_slice::<u32>(&data, -4, 1, 4),
        Err(GuestError::OutOfBoundsRead)
    );
    assert_eq!(
        copy_slice::<u16>(&data, 6, 2, 2),
        Err(GuestError::OutOfBoundsRead)
    );
}

#[test]
fn le_cell_normalizes_on_set_and_get() {
    let mut cell = Le::new(0x1234u16);
    assert_eq!(cell.get(), 0x1234);
    cell.set(0xBEEFu16);
    assert_eq!(cell.get(), 0xBEEF);
    let signed = Le::new(-40_000_000i32);
    assert_eq!(signed.get(), -40_000_000);
}

#[test]
fn endian_encoding_is_fixed_order() {
    assert_eq!(0x0102_0304u32.to_le_vec(), vec![0x04, 0x03, 0x02, 0x01]);
    assert_eq!((-2i16).to_le_vec(), vec![0xFE, 0xFF]);
    assert_eq!(u64::size_of(), 8);
    assert_eq!(i8::size_of(), 1);
    assert_eq!(u32::from_le_slice(&[0x04, 0x03, 0x02, 0x01]), 0x0102_0304);
}
