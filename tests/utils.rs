use minijvm::utils::{slice_as_i32, slice_as_u16, slice_as_u32};

#[test]
fn big_endian_u32_at_offset() {
    assert_eq!(slice_as_u32(&[0x00, 0x00, 0xCA, 0xFE, 0xBA, 0xBE], 2), 0xCAFEBABE);
}

#[test]
fn big_endian_u16_and_i32() {
    assert_eq!(slice_as_u16(&[0x12, 0x34, 0x56], 1), 0x3456);
    assert_eq!(slice_as_i32(&[0xFF, 0xFF, 0xFF, 0xFE], 0), -2);
}
