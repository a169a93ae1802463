pub mod ppu;

pub use self::ppu::{Color, Tile, PPU};
