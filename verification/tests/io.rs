use gbc::io::{ClockSelect, DivRegister, IFlag, IRType, Timer, TimerControl, DIV, IR};
use gbc::memory::Memory;

#[test]
fn interrupt_register_flags() {
    let mut ir = IR::new(IRType::IF, Memory::new());
    assert_eq!(ir.active(), None);
    ir.set_flag(IFlag::Serial);
    assert!(ir.is_set(IFlag::Serial));
    assert_eq!(ir.flag(IFlag::Serial), 1);
    assert_eq!(ir.mem.read(0xFF0F), 0b0000_1000);
    assert_eq!(ir.active(), Some(IFlag::Serial));
    ir.set_flag(IFlag::LCD);
    assert_eq!(ir.active(), Some(IFlag::LCD));
    ir.reset_flag(IFlag::LCD);
    assert_eq!(ir.active(), Some(IFlag::Serial));
    assert!(!ir.is_set(IFlag::VBlank));

    let mut ie = IR::new(IRType::IE, Memory::new());
    ie.set_flag(IFlag::Joypad);
    assert_eq!(ie.mem.ie(), 0b0001_0000);
    assert_eq!(ie.active(), Some(IFlag::Joypad));
    ie.set_flag(IFlag::VBlank);
    assert_eq!(ie.active(), Some(IFlag::VBlank));
}

#[test]
fn interrupt_addresses() {
    assert_eq!(IFlag::VBlank.addr(), 0x40);
    assert_eq!(IFlag::LCD.addr(), 0x48);
    assert_eq!(IFlag::Timer.addr(), 0x50);
    assert_eq!(IFlag::Serial.addr(), 0x58);
    assert_eq!(IFlag::Joypad.addr(), 0x60);
    assert_eq!(IFlag::Timer.bit(), 2);
    assert_eq!(Timer::DIV.addr(), 0xFF04);
    assert_eq!(Timer::TIMA.addr(), 0xFF05);
    assert_eq!(Timer::TMA.addr(), 0xFF06);
    assert_eq!(Timer::TAC.addr(), 0xFF07);
}

#[test]
fn divider_counts_elapsed_periods() {
    let mut div = DivRegister::new(Memory::new(), 1_000);
    div.advance_to(1_000 + 3 * 61_035 + 10);
    assert_eq!(div.mem.read(DIV as u16), 3);
    // The start time is kept: the periods are counted from it again.
    div.advance_to(1_000 + 2 * 61_035);
    assert_eq!(div.mem.read(DIV as u16), 5);
    div.disable();
    div.advance_to(0);
    assert_eq!(div.mem.read(DIV as u16), 5);
    div.enable();
    div.advance_to(1_000 + 300 * 61_035);
    assert_eq!(div.mem.read(DIV as u16), ((5 + 300) % 256) as u8);
}

#[test]
fn timer_control_bits() {
    let mut tc = TimerControl(Memory::new());
    assert!(!tc.is_enabled());
    tc.enable();
    assert!(tc.is_enabled());
    assert_eq!(tc.0.read(0xFF07), 0b100);
    tc.0.write(0xFF07, 0b111);
    assert_eq!(tc.clk(), ClockSelect::Fast);
    tc.clk_select(ClockSelect::Slow);
    assert_eq!(tc.0.read(0xFF07), 0b100);
    assert_eq!(tc.clk(), ClockSelect::Hyper);
    tc.disable();
    assert!(!tc.is_enabled());
    assert_eq!(ClockSelect::from_bits(1), ClockSelect::Slow);
    assert_eq!(ClockSelect::from_bits(2), ClockSelect::Medium);
    assert_eq!(ClockSelect::Hyper.freq(), 256_000_000);
    assert_eq!(ClockSelect::Fast.freq(), 64_000_000);
}
