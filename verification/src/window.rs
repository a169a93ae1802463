use vstd::prelude::*;

verus! {

/// Width of the background tile map in pixels: 32 tiles of 8.
pub const BG_TILE_WIDTH: u32 = 32 * 8;

/// Height of the background tile map in pixels: 32 tiles of 8.
pub const BG_TILE_HEIGHT: u32 = 32 * 8;

pub const WINDOW_W: u32 = 320;

pub const WINDOW_H: u32 = 288;

/// Width of the LCD in pixels.
pub const GB_LCD_W: u32 = 160;

/// Height of the LCD in pixels.
pub const GB_LCD_H: u32 = 144;

/// Window pixels per LCD pixel, across.
pub const PIXEL_W: u32 = WINDOW_W / GB_LCD_W;

/// Window pixels per LCD pixel, down.
pub const PIXEL_H: u32 = WINDOW_H / GB_LCD_H;

/// What a window shows.
#[derive(Debug, Clone, Copy, PartialEq, Eq, Structural)]
pub enum WindowType {
    /// The whole 256x256 background tile map.
    BackgroundTiles,
    /// The 160x144 screen.
    Screen,
}

impl WindowType {
    /// The size in pixels of the picture the window shows, width first.
    pub fn dimensions(&self) -> (r: (u32, u32))
        ensures
            r == match self {
                WindowType::BackgroundTiles => (256u32, 256u32),
                WindowType::Screen => (160u32, 144u32),
            },
    {
        match self {
            Self::BackgroundTiles => (BG_TILE_WIDTH, BG_TILE_HEIGHT),
            Self::Screen => (GB_LCD_W, GB_LCD_H),
        }
    }
}

} // verus!
