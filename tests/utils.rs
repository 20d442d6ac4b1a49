use riscv_vm::utils::{
    sign_extend_u16_to_i16, sign_extend_u32_to_i32, sign_extend_u64_to_i64, sign_extend_u8_to_i8,
};

#[test]
fn test_sign_extend_all_ones() {
    assert_eq!(sign_extend_u8_to_i8(0xff, 8), -1);
    assert_eq!(sign_extend_u16_to_i16(0xffff, 16), -1);
    assert_eq!(sign_extend_u32_to_i32(0xffff_ffff, 32), -1);
    assert_eq!(sign_extend_u64_to_i64(0xffff_ffff_ffff_ffff, 64), -1);
}

#[test]
fn test_sign_extend_all_zeros() {
    assert_eq!(sign_extend_u8_to_i8(0x00, 8), 0);
    assert_eq!(sign_extend_u16_to_i16(0x0000, 16), 0);
    assert_eq!(sign_extend_u32_to_i32(0x000_0000, 32), 0);
    assert_eq!(sign_extend_u64_to_i64(0x0000_0000_0000_0000, 64), 0);
}

#[test]
fn test_sign_extend_positive_values() {
    assert_eq!(sign_extend_u8_to_i8(0x7f, 8), 127);
    assert_eq!(sign_extend_u16_to_i16(0x7fff, 16), 32767);
    assert_eq!(sign_extend_u32_to_i32(0x7fff_ffff, 32), 2147483647);
    assert_eq!(
        sign_extend_u64_to_i64(0x7fff_ffff_ffff_ffff, 64),
        9223372036854775807
    );
}

#[test]
fn test_sign_extend_negative_values() {
    assert_eq!(sign_extend_u8_to_i8(0x80, 8), -128);
    assert_eq!(sign_extend_u16_to_i16(0x8000, 16), -32768);
    assert_eq!(sign_extend_u32_to_i32(0x8000_0000, 32), -2147483648);
    assert_eq!(
        sign_extend_u64_to_i64(0x8000_0000_0000_0000, 64),
        -9223372036854775808
    );
}

#[test]
fn sign_extend_narrow_widths() {
    assert_eq!(sign_extend_u64_to_i64(0xfff, 12), -1);
    assert_eq!(sign_extend_u64_to_i64(0x800, 12), -2048);
    assert_eq!(sign_extend_u64_to_i64(0x7ff, 12), 2047);
    assert_eq!(sign_extend_u64_to_i64(0x1fff, 12), -1);
    assert_eq!(sign_extend_u32_to_i32(0x1, 1), -1);
    assert_eq!(sign_extend_u8_to_i8(0x0f, 4), -1);
    assert_eq!(sign_extend_u16_to_i16(0x0007, 4), 7);
}

#[test]
fn sign_extend_all_ones_every_width() {
    for w in 1..=64usize {
        let ones = if w == 64 { u64::MAX } else { (1u64 << w) - 1 };
        assert_eq!(sign_extend_u64_to_i64(ones, w), -1);
        let min = 1u64 << (w - 1);
        assert_eq!(sign_extend_u64_to_i64(min, w), -(min as i128) as i64);
    }
}
