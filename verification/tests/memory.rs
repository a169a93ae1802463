use gbc::memory::{Accessor, Memory, BGP, LCDC, OBP0, OBP1};

#[test]
fn read_write() {
    let mut mem = Memory::new();
    let addr = 0xFFEE;
    let byte = 0xDE;
    mem.write(addr, byte);
    assert_eq!(mem.read(addr), byte);
}

#[test]
fn memory_write_leaves_other_cells() {
    let mut mem = Memory::new();
    mem.write(0xC000, 0x11);
    mem.write(0xC001, 0x22);
    mem.write(0xC000, 0x33);
    assert_eq!(mem.read(0xC000), 0x33);
    assert_eq!(mem.read(0xC001), 0x22);
    assert_eq!(mem.read(0xC002), 0x00);
}

#[test]
fn memory_unused_block_reaches_oam() {
    let mut mem = Memory::new();
    mem.write(0xFEA5, 0x7A);
    assert_eq!(mem.read(0xFE05), 0x7A);
    assert_eq!(mem.read(0xFEA5), 0x7A);
    assert_eq!(mem.unused(), vec![0u8; 0x60]);
    assert_eq!(mem.oam()[5], 0x7A);
}

#[test]
fn memory_words_are_little_endian() {
    let mut mem = Memory::new();
    mem.write_word(0xC100, 0xBEEF);
    assert_eq!(mem.read(0xC100), 0xEF);
    assert_eq!(mem.read(0xC101), 0xBE);
    assert_eq!(mem.read_word(0xC100), 0xBEEF);
}

#[test]
fn memory_inc_dec() {
    let mut mem = Memory::new();
    mem.write(0xC200, 0x0F);
    assert_eq!(mem.inc(0xC200), 0x10);
    assert_eq!(mem.read(0xC200), 0x10);
    assert_eq!(mem.dec(0xC200), 0x0F);
    assert_eq!(mem.dec(0xC200), 0x0E);
    assert_eq!(mem.read(0xC200), 0x0E);
}

#[test]
fn memory_load_state_then_state() {
    let mut mem = Memory::new();
    let entries: Vec<[u16; 2]> = vec![[0xC000, 0x12], [0x8000, 0x34], [0xFF80, 0x1FF], [0xC000, 0x56]];
    mem.load_state(&entries);
    assert_eq!(mem.read(0xC000), 0x56);
    assert_eq!(mem.read(0x8000), 0x34);
    assert_eq!(mem.read(0xFF80), 0xFF);
    let st = mem.state();
    assert_eq!(st, vec![[0xC000, 0x56], [0x8000, 0x34], [0xFF80, 0xFF]]);
}

#[test]
fn memory_regions() {
    let mut mem = Memory::new();
    mem.write(0x8001, 1);
    mem.write(0xFF01, 2);
    mem.write(0xFF81, 3);
    mem.write(0xC001, 4);
    mem.write(0xD001, 5);
    mem.write(0xE001, 6);
    mem.write(0xFFFF, 7);
    assert_eq!(mem.vram().len(), 0x2000);
    assert_eq!(mem.vram()[1], 1);
    assert_eq!(mem.io().len(), 0x80);
    assert_eq!(mem.io()[1], 2);
    assert_eq!(mem.hram().len(), 0x7F);
    assert_eq!(mem.hram()[1], 3);
    assert_eq!(mem.wram_0()[1], 4);
    assert_eq!(mem.wram_1()[1], 5);
    assert_eq!(mem.echo_ram()[1], 6);
    assert_eq!(mem.echo_ram().len(), 0x1E00);
    assert_eq!(mem.oam().len(), 0xA0);
    assert_eq!(mem.ie(), 7);
}

#[test]
fn memory_init_sets_registers() {
    let mut mem = Memory::new();
    mem.init();
    assert_eq!(mem.read(0xFF00), 0xCF);
    assert_eq!(mem.lcdc(), 0x91);
    assert_eq!(mem.bg_pal(), 0xFC);
    assert_eq!(mem.read(LCDC), 0x91);
    assert_eq!(mem.read(BGP), 0xFC);
    assert_eq!(mem.obj_pal_0(), mem.read(OBP0));
    assert_eq!(mem.obj_pal_1(), mem.read(OBP1));
    assert_eq!(mem.ie(), 0x00);
}

#[test]
fn memory_load_rom() {
    let mut mem = Memory::new();
    mem.write(0x4000, 0x99);
    let rom: Vec<u8> = (0..0x4000u32).map(|i| (i % 251) as u8).collect();
    mem.load_rom(&rom);
    assert_eq!(mem.read(0x0000), 0);
    assert_eq!(mem.read(0x0100), (0x100 % 251) as u8);
    assert_eq!(mem.read(0x3FFF), (0x3FFF % 251) as u8);
    assert_eq!(mem.read(0x4000), 0x99);
}

#[test]
fn memory_buses() {
    let mut mem = Memory::new();
    mem.write(0xC123, 0x42);
    let mut addr = mem.address_bus(Accessor::CPU);
    let mut data = mem.data_bus(Accessor::PPU);
    assert_eq!(addr.accessor, Accessor::CPU);
    assert_eq!(data.accessor, Accessor::PPU);
    addr.drive(&mut mem, 0xC123);
    assert_eq!(addr.current(&mem), 0xC123);
    assert_eq!(data.read(&mem), 0x42);
    assert_eq!(mem.read_current(), 0x42);
    data.drive(&mut mem, 0x99);
    data.write(&mut mem);
    assert_eq!(mem.read(0xC123), 0x99);
    mem.assert_addr(0xC124);
    mem.assert_data(0x55);
    mem.write_current();
    assert_eq!(mem.read(0xC124), 0x55);
    assert_eq!(Accessor::CPU.as_str(), "cpu");
    assert_eq!(Accessor::PPU.as_str(), "ppu");
}

#[test]
fn memory_state_round_trip() {
    let mut mem = Memory::new();
    mem.init();
    for (i, addr) in [0x0000u16, 0x1234, 0x4000, 0x8001, 0xA002, 0xC003, 0xD004, 0xE005, 0xFE06, 0xFEA7, 0xFF81].iter().enumerate() {
        mem.write(*addr, (i as u8) * 17 + 1);
    }
    let entries = mem.state();
    let mut copy = Memory::new();
    copy.load_state(&entries);
    for addr in 0..=0xFFFFu16 {
        assert_eq!(copy.read(addr), mem.read(addr), "cell {addr:#06x}");
    }
}
