use gbc::registers::{Level, Register};

#[test]
fn read_word() {
    let r = Register::new();
    assert_eq!(0, r.val());

    let word = 0xFE;
    let r = Register::from_word(word);
    assert_eq!(word, r.val());
}

#[test]
fn write_word() {
    let word = 0xFE;
    let mut r = Register::from_word(word);

    let word = 0xBB;
    r.write(word);
    assert_eq!(word, r.val());
}

#[test]
fn read_byte() {
    let word: u16 = 0xFEFE;
    let low = (word & 0x00FF) as u8;
    let high = ((word & 0xFF00) >> 8) as u8;

    let r = Register::from_word(word);
    assert_eq!(low, r.low());
    assert_eq!(high, r.high());
}

#[test]
fn write_byte_low() {
    let word = 0xFEFE;
    let mut r = Register::from_word(word);

    let byte = 0xBB;
    r.write_byte(Level::Low, byte);

    let expected_word = 0xFEBB;

    assert_eq!(expected_word, r.val());
    assert_eq!(byte, r.low());
}

#[test]
fn write_byte_high() {
    let word: u16 = 0xFEFE;
    let mut r = Register::from_word(word);

    let byte = 0xBB;
    r.write_byte(Level::High, byte);

    let expected_word = 0xBBFE;

    assert_eq!(expected_word, r.val());
    assert_eq!(byte, r.high());
}

#[test]
fn register_byte_read_back_keeps_other_byte() {
    let mut r = Register::from_word(0x1234);
    r.write_byte(Level::Low, 0xAB);
    assert_eq!(r.read_byte(Level::Low), 0xAB);
    assert_eq!(r.read_byte(Level::High), 0x12);
    r.write_byte(Level::High, 0xCD);
    assert_eq!(r.read_byte(Level::High), 0xCD);
    assert_eq!(r.read_byte(Level::Low), 0xAB);
    assert_eq!(r.val(), 0xCDAB);
}

#[test]
fn register_label_and_steps() {
    let mut r = Register::from_word(0x00FF);
    assert_eq!(r.label(), None);
    r.set_label(String::from("HL"));
    assert_eq!(r.label(), Some(String::from("HL")));
    assert_eq!(r.val(), 0x00FF);
    r.inc();
    assert_eq!(r.val(), 0x0100);
    r.dec();
    r.dec();
    assert_eq!(r.val(), 0x00FE);
    assert_eq!(r.label(), Some(String::from("HL")));
}
