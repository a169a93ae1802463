use gbc::bit as old_bit;
use gbc::utils::bit;

#[test]
fn bit_get() {
    let byte = 0b0101_0101;
    assert_eq!(bit::get(byte, 0), 1);
    assert_eq!(bit::get(byte, 1), 0);
    assert_eq!(bit::get(byte, 2), 1);
    assert_eq!(bit::get(byte, 3), 0);
    assert_eq!(bit::get(byte, 4), 1);
    assert_eq!(bit::get(byte, 5), 0);
    assert_eq!(bit::get(byte, 6), 1);
    assert_eq!(bit::get(byte, 7), 0);
}

#[test]
fn get() {
    let byte = 0b0101_0101;
    assert_eq!(old_bit::get(byte, 0), 1);
    assert_eq!(old_bit::get(byte, 1), 0);
    assert_eq!(old_bit::get(byte, 2), 1);
    assert_eq!(old_bit::get(byte, 3), 0);
    assert_eq!(old_bit::get(byte, 4), 1);
    assert_eq!(old_bit::get(byte, 5), 0);
    assert_eq!(old_bit::get(byte, 6), 1);
    assert_eq!(old_bit::get(byte, 7), 0);
}

#[test]
fn bit_set() {
    let mut byte = 0b0101_0101;
    bit::set(&mut byte, 1);
    assert_eq!(bit::get(byte, 1), 1);
}

#[test]
fn set() {
    let mut byte = 0b0101_0101;
    old_bit::set(&mut byte, 1);
    assert_eq!(old_bit::get(byte, 1), 1);
}

#[test]
fn bit_reset() {
    let mut byte = 0b0101_0101;
    bit::reset(&mut byte, 1);
    assert_eq!(bit::get(byte, 1), 0);
}

#[test]
fn reset() {
    let mut byte = 0b0101_0101;
    old_bit::reset(&mut byte, 1);
    assert_eq!(old_bit::get(byte, 1), 0);
}

#[test]
fn bit_toggle() {
    let mut byte = 0b0101_0101;
    bit::toggle(&mut byte, 1);
    assert_eq!(bit::get(byte, 1), 1);
    bit::toggle(&mut byte, 1);
    assert_eq!(bit::get(byte, 1), 0);
}

#[test]
fn toggle() {
    let mut byte = 0b0101_0101;
    old_bit::toggle(&mut byte, 1);
    assert_eq!(old_bit::get(byte, 1), 1);
    old_bit::toggle(&mut byte, 1);
    assert_eq!(old_bit::get(byte, 1), 0);
}

#[test]
fn check_overflow() {
    let a = 0b0001_0000;
    let b = 0b0001_0000;
    assert!(bit::check_overflow(a, b, 4));
    assert!(!bit::check_overflow(a, 0, 4));

    let a = 0b1000_0000;
    let b = 0b1000_0000;
    assert!(bit::check_overflow(a, b, 7));
    assert!(!bit::check_overflow(a, 0, 7));
}

#[test]
fn check_overflow_word() {
    let a = 0b0001_0000 as u16;
    let b = 0b0001_0000 as u16;
    assert!(bit::check_overflow_word(a, b, 4));
    assert!(!bit::check_overflow_word(a, 0, 4));

    let a = 0b10000000_00000000;
    let b = 0b10000000_00000000;
    assert!(bit::check_overflow_word(a, b, 15));
    assert!(!bit::check_overflow_word(a, 0, 15));
}

#[test]
fn fill_to() {
    assert_ne!(bit::fill_to(4), 0b0001_1111);
}

#[test]
fn fill_to_word() {
    assert_ne!(bit::fill_to_word(12), 0b0001_1111_1111_1111);
}

#[test]
fn check_borrow() {
    let a = 0b0001_0000;
    let b = 0b0000_1000;
    assert!(bit::check_borrow(a, b, 4));
    assert!(!bit::check_borrow(a, 0, 4));
}

#[test]
fn fill_masks_exact() {
    assert_eq!(bit::fill_to(0), 0b0000_0010);
    assert_eq!(bit::fill_to(3), 0b0001_1110);
    assert_eq!(bit::fill_to(4), 0b0011_1110);
    assert_eq!(bit::fill_to(6), 0b1111_1110);
    assert_eq!(bit::fill_to(200), 0b1111_1110);
    assert_eq!(bit::fill_to_word(0), 0b10);
    assert_eq!(bit::fill_to_word(12), 0b0011_1111_1111_1110);
    assert_eq!(bit::fill_to_word(14), 0xFFFE);
    assert_eq!(bit::fill_to_word(40), 0xFFFE);
}

#[test]
fn set_reset_toggle_keep_other_bits() {
    for n in 0..8u8 {
        let mut byte = 0b1010_0110;
        bit::set(&mut byte, n);
        assert_eq!(byte, 0b1010_0110 | (1 << n));
        bit::reset(&mut byte, n);
        assert_eq!(byte, 0b1010_0110 & !(1 << n));
        let before = byte;
        bit::toggle(&mut byte, n);
        bit::toggle(&mut byte, n);
        assert_eq!(byte, before);
    }
}

#[test]
fn word_bits() {
    let w: u16 = 0b1000_0000_0000_0001;
    assert_eq!(bit::get_u16(w, 0), 1);
    assert_eq!(bit::get_u16(w, 1), 0);
    assert_eq!(bit::get_u16(w, 15), 1);
    assert!(bit::is_set_u16(w, 15));
    assert!(!bit::is_set_u16(w, 14));
    assert!(bit::is_set(0b100, 2));
    assert!(!bit::is_set(0b100, 1));
}

#[test]
fn carries_and_borrows() {
    assert!(bit::check_hc(0x0F, 0x01));
    assert!(!bit::check_hc(0x0E, 0x01));
    assert!(bit::check_carry(0xFF, 0x01));
    assert!(!bit::check_carry(0xFE, 0x01));
    assert!(bit::check_carry_word(0xFFFF, 0x0001));
    assert!(!bit::check_carry_word(0x7FFF, 0x0001));
    assert!(bit::check_hc_word(0x0FFF, 0x0001));
    assert!(!bit::check_hc_word(0x0FFE, 0x0001));
    assert!(bit::check_b(0x10, 0x01));
    assert!(!bit::check_b(0x11, 0x01));
    assert!(bit::check_borrow(0x10, 0x20, 8));
    assert!(!bit::check_borrow(0x20, 0x10, 8));
    assert!(bit::check_borrow_word(0x0100, 0x0002, 8));
    assert!(!bit::check_borrow_word(0x0102, 0x0002, 8));
    assert!(bit::check_borrow_word(0x0001, 0x0002, 16));
}
