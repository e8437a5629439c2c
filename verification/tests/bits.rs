use lc3_vm::sign_extend;
use lc3_vm::swap_endian;

#[test]
fn can_sign_extend() {
    assert_eq!(sign_extend(0b1, 1), 65535, "Could not correctly sign extend number!");
    assert_eq!(sign_extend(0b101, 3), 65533, "Could not correctly sign extend number!");
}

#[test]
fn can_swap_endian() {
    assert_eq!(
        swap_endian([0b00000000, 0b11111111]),
        0b00000000_11111111,
        "Could not swap endianness!"
    )
}

#[test]
fn sign_extend_keeps_positive_fields() {
    assert_eq!(sign_extend(0b011, 3), 3);
    assert_eq!(sign_extend(0b01111, 5), 15);
    assert_eq!(sign_extend(0, 9), 0);
}

#[test]
fn sign_extend_negative_fields() {
    // -1 in 5 bits, -16 in 5 bits, -256 in 9 bits.
    assert_eq!(sign_extend(0b11111, 5), 65535);
    assert_eq!(sign_extend(0b10000, 5), 65520);
    assert_eq!(sign_extend(0b100000000, 9), 65280);
}

#[test]
fn swap_endian_orders_bytes_big_endian() {
    assert_eq!(swap_endian([0x12, 0x34]), 0x1234);
    assert_eq!(swap_endian([0xFF, 0x00]), 0xFF00);
}
