use gbc::memory::{Memory, BGP, LCDC, OBP0, OBP1};
use gbc::ppu::ppu::{Background, Palette, SCX, SCY};
use gbc::ppu::{Color, Tile, PPU};
use gbc::window::{WindowType, PIXEL_H, PIXEL_W};

const TEST_TILE: [u8; 16] = [
    0x3C, 0x7E, 0x42, 0x42, 0x42, 0x42, 0x42, 0x42, 0x7E, 0x5E, 0x7E, 0x0A, 0x7C, 0x56, 0x38, 0x7C,
];

#[test]
fn to_tile() {
    let t1: Tile = Tile::from_bytes(TEST_TILE.clone());
    let t2: Tile = Tile::from_slice(&TEST_TILE[..]);
    assert_eq!(t1, t2);

    let l1 = t1.line(0);
    let l2 = t2.line(0);
    assert_eq!(l1, l2);

    let pixel = t1.pixel(0, 0);
    assert_eq!(pixel, Color::White);
}

#[test]
fn tile_pixels_exact() {
    let t = Tile::from_bytes(TEST_TILE);
    // Row 0: 0x3C (high bits), 0x7E (low bits).
    assert_eq!(t.pixel(0, 0), Color::White);
    assert_eq!(t.pixel(1, 0), Color::LightGrey);
    assert_eq!(t.pixel(2, 0), Color::Black);
    assert_eq!(t.pixel(7, 0), Color::White);
    // Row 4: 0x7E, 0x5E: bit 5 set in the high byte only.
    assert_eq!(t.pixel(5, 4), Color::DarkGrey);
    assert_eq!(t.line(1), &[0x42u8][..]);
    assert!(t.line_as_ci(0).is_empty());
    assert_eq!(Tile::new().buf, [0u8; 16]);
}

#[test]
fn colors_and_palettes() {
    assert_eq!(Color::White.to_rgb(), (255, 255, 255));
    assert_eq!(Color::LightGrey.to_rgb(), (166, 166, 166));
    assert_eq!(Color::DarkGrey.to_rgb(), (83, 83, 83));
    assert_eq!(Color::Black.to_rgb(), (0, 0, 0));
    assert_eq!(Color::from_bits(0), Color::White);
    assert_eq!(Color::from_bits(3), Color::Black);

    let p: Palette = 0b1110_0100u8.into();
    assert_eq!(p.id_0(), Color::White);
    assert_eq!(p.id_1(), Color::LightGrey);
    assert_eq!(p.id_2(), Color::DarkGrey);
    assert_eq!(p.id_3(), Color::Black);
    assert_eq!(p.id(0, 1), Color::White);
    assert_eq!(p.id(6, 7), Color::Black);
}

#[test]
fn ppu_registers_from_memory() {
    let mut mem = Memory::new();
    let ppu = PPU::new();
    mem.write(LCDC, 0b1000_0111);
    mem.write(BGP, 0xE4);
    mem.write(OBP0, 0x1B);
    mem.write(OBP1, 0x27);
    mem.write(SCY as u16, 0x10);
    mem.write(SCX as u16, 0xF0);
    assert!(ppu.lcd_ppu_en(&mem));
    assert!(ppu.obj_size(&mem));
    assert!(ppu.obj_enable(&mem));
    assert!(ppu.bg_window_enable(&mem));
    assert_eq!(ppu.bg_palette(&mem), Palette(0xE4));
    assert_eq!(ppu.obj_palette_0(&mem), Palette(0x1B));
    assert_eq!(ppu.obj_palette_1(&mem), Palette(0x27));
    assert_eq!(ppu.bg_viewport(&mem), (0x10 + 143, (0xF0u16 + 159 - 256) as u8));
    mem.write(LCDC, 0);
    assert!(!ppu.lcd_ppu_en(&mem));
    assert!(!ppu.obj_enable(&mem));
}

#[test]
fn background_follows_lcdc() {
    let mut mem = Memory::new();
    // Tile data from 0x8000, map from 0x9C00.
    mem.write(LCDC, 0b0001_1000);
    mem.write(0x8000, 0xAA);
    mem.write(0x9C00, 0x05);
    mem.write(0x9800, 0x07);
    let ppu = PPU::new();
    let bg = ppu.background(&mem);
    assert_eq!(bg.data.len(), 0x1000);
    assert_eq!(bg.map.len(), 0x400);
    assert_eq!(bg.data[0], 0xAA);
    assert_eq!(bg.map[0], 0x05);
    // Tile data from 0x8800, map from 0x9800.
    mem.write(LCDC, 0);
    mem.write(0x8800, 0xBB);
    let bg = ppu.background(&mem);
    assert_eq!(bg.data[0], 0xBB);
    assert_eq!(bg.map[0], 0x07);
}

#[test]
fn background_draw_paints_tiles() {
    let mut data = vec![0u8; 0x1000];
    // Tile 1: every pixel has color number 3.
    for b in data[16..32].iter_mut() {
        *b = 0xFF;
    }
    let mut map = vec![0u8; 0x400];
    map[1] = 1;
    let bg = Background { map, data };
    let pitch = 256 * 3;
    let mut buf = vec![7u8; 256 * pitch];
    bg.draw(&mut buf, pitch);
    // Tile 0 is white, tile 1 (columns 8..16 of the first tile row) is black.
    assert_eq!(&buf[0..3], &[255, 255, 255]);
    assert_eq!(&buf[8 * 3..8 * 3 + 3], &[0, 0, 0]);
    assert_eq!(&buf[7 * pitch + 15 * 3..7 * pitch + 15 * 3 + 3], &[0, 0, 0]);
    assert_eq!(&buf[8 * pitch + 8 * 3..8 * pitch + 8 * 3 + 3], &[255, 255, 255]);

    let mut mem = Memory::new();
    mem.write(LCDC, 0b0001_0000);
    mem.write(0x8010, 0xFF);
    mem.write(0x9801, 1);
    let mut ppu = PPU::new();
    let mut buf = vec![7u8; 256 * pitch];
    ppu.draw_bg_tiles(&mem, &mut buf, pitch);
    assert_eq!(&buf[8 * 3..8 * 3 + 3], &[83, 83, 83]);
    assert_eq!(&buf[0..3], &[255, 255, 255]);
}

#[test]
fn window_dimensions() {
    assert_eq!(WindowType::BackgroundTiles.dimensions(), (256, 256));
    assert_eq!(WindowType::Screen.dimensions(), (160, 144));
    assert_eq!((PIXEL_W, PIXEL_H), (2, 2));
}
