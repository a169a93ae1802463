use vstd::prelude::*;

use crate::memory::{Memory, BGP, LCDC, OBP0, OBP1};
use crate::utils::bit;

verus! {

pub const VRAM_START: usize = 0x8000;

pub const VRAM_BLOCK_0_START: usize = VRAM_START;

pub const VRAM_BLOCK_0_END: usize = 0x87FF;

pub const VRAM_BLOCK_1_START: usize = 0x8800;

pub const VRAM_BLOCK_1_END: usize = 0x8FFF;

pub const VRAM_BLOCK_2_START: usize = 0x9000;

pub const VRAM_BLOCK_2_END: usize = 0x97FF;

pub const VRAM_END: usize = 0x9FFF;

pub const VRAM_SIZE: usize = VRAM_END - VRAM_START + 1;

pub const BG_TILE_DATA_0_START: usize = 0x8800;

pub const BG_TILE_DATA_0_END: usize = 0x97FF;

pub const BG_TILE_DATA_1_START: usize = VRAM_BLOCK_0_START;

pub const BG_TILE_DATA_1_END: usize = 0x8FFF;

pub const BG_TILE_DATA_SIZE: usize = BG_TILE_DATA_1_END - BG_TILE_DATA_1_START + 1;

pub const BG_TILE_MAP_0_START: usize = 0x9800;

pub const BG_TILE_MAP_0_END: usize = 0x9BFF;

pub const BG_TILE_MAP_1_START: usize = 0x9C00;

pub const BG_TILE_MAP_1_END: usize = 0x9FFF;

pub const BG_TILE_MAP_SIZE: usize = BG_TILE_MAP_0_END - BG_TILE_MAP_0_START + 1;

pub const OBJ_TILE_DATA_START: usize = 0x8000;

pub const OBJ_TILE_DATA_END: usize = 0x8FFF;

pub const OBJ_TILE_DATA_LEN: usize = OBJ_TILE_DATA_END - OBJ_TILE_DATA_START;

pub const SCY: usize = 0xFF42;

pub const SCX: usize = 0xFF43;

pub const GB_LCD_W: usize = 160;

pub const GB_LCD_H: usize = 144;

/// The shade of a pixel.
#[derive(Debug, Clone, Copy, PartialEq, Eq, Structural)]
pub enum Color {
    White,
    LightGrey,
    DarkGrey,
    Black,
}

/// The shade for a two-bit color number.
pub open spec fn color_of(v: int) -> Color {
    if v == 0 {
        Color::White
    } else if v == 1 {
        Color::LightGrey
    } else if v == 2 {
        Color::DarkGrey
    } else {
        Color::Black
    }
}

/// The RGB value of a shade.
pub open spec fn rgb_of(c: Color) -> (u8, u8, u8) {
    match c {
        Color::White => (255, 255, 255),
        Color::LightGrey => (166, 166, 166),
        Color::DarkGrey => (83, 83, 83),
        Color::Black => (0, 0, 0),
    }
}

impl Color {
    pub fn to_rgb(&self) -> (r: (u8, u8, u8))
        ensures
            r == rgb_of(*self),
    {
        match self {
            Self::White => (255, 255, 255),
            Self::LightGrey => (166, 166, 166),
            Self::DarkGrey => (83, 83, 83),
            Self::Black => (0, 0, 0),
        }
    }

    /// The shade for a two-bit color number.
    pub fn from_bits(value: u8) -> (r: Color)
        requires
            value < 4,
        ensures
            r == color_of(value as int),
    {
        match value {
            0 => Self::White,
            1 => Self::LightGrey,
            2 => Self::DarkGrey,
            _ => Self::Black,
        }
    }
}

/// What the picture processor is doing.
#[derive(Debug, Clone, Copy, PartialEq, Eq, Structural)]
pub enum PPUMode {
    OAM,
    Draw,
    HBlank,
    VBlank,
}

/// A palette register: four two-bit color numbers.
#[derive(Debug, Clone, Copy, PartialEq, Eq, Structural)]
pub struct Palette(pub u8);

impl Palette {
    /// The shade made of bit `h` (high) and bit `l` (low) of the palette.
    pub fn id(&self, h: u8, l: u8) -> (r: Color)
        requires
            h < 8,
            l < 8,
        ensures
            r == color_of(bit::bit_of(self.0, h) * 2 + bit::bit_of(self.0, l)),
    {
        let high = bit::get(self.0, h);
        let low = bit::get(self.0, l);
        proof {
            bit::lemma_pair_bits(high, low);
        }
        Color::from_bits((high << 1) | low)
    }

    pub fn id_3(&self) -> (r: Color)
        ensures
            r == color_of(bit::bit_of(self.0, 7) * 2 + bit::bit_of(self.0, 6)),
    {
        self.id(7, 6)
    }

    pub fn id_2(&self) -> (r: Color)
        ensures
            r == color_of(bit::bit_of(self.0, 5) * 2 + bit::bit_of(self.0, 4)),
    {
        self.id(5, 4)
    }

    pub fn id_1(&self) -> (r: Color)
        ensures
            r == color_of(bit::bit_of(self.0, 3) * 2 + bit::bit_of(self.0, 2)),
    {
        self.id(3, 2)
    }

    pub fn id_0(&self) -> (r: Color)
        ensures
            r == color_of(bit::bit_of(self.0, 1) * 2 + bit::bit_of(self.0, 0)),
    {
        self.id(1, 0)
    }
}

impl From<u8> for Palette {
    fn from(value: u8) -> (r: Palette) {
        Palette(value)
    }
}

impl vstd::std_specs::convert::FromSpecImpl<u8> for Palette {
    open spec fn obeys_from_spec() -> bool {
        true
    }

    open spec fn from_spec(v: u8) -> Palette {
        Palette(v)
    }
}

/// An 8x8 tile: two bytes per row, the first holding the high bit of each
/// pixel's color number and the second the low bit, bit `x` for column `x`.
#[derive(Debug, Clone, Copy, PartialEq, Eq)]
pub struct Tile {
    pub buf: [u8; 16],
}

/// The color number of pixel (`x`, `y`) of a tile's bytes.
pub open spec fn tile_pixel(buf: Seq<u8>, x: int, y: int) -> int {
    bit::bit_of(buf[y * 2], x as u8) * 2 + bit::bit_of(buf[y * 2 + 1], x as u8)
}

impl Tile {
    pub const LINE_SIZE_RGB24: usize = 24;

    pub const TILE_SIZE_RGB24: usize = 192;

    pub fn new() -> (t: Tile)
        ensures
            forall|i: int| 0 <= i < 16 ==> t.buf@[i] == 0,
    {
        Tile { buf: [0u8; 16] }
    }

    /// The tile from its sixteen bytes.
    pub fn from_bytes(value: [u8; 16]) -> (t: Tile)
        ensures
            t.buf@ == value@,
    {
        let mut t = Tile::new();
        t.buf = value;
        t
    }

    /// The tile from a slice of exactly sixteen bytes.
    pub fn from_slice(value: &[u8]) -> (t: Tile)
        requires
            value@.len() == 16,
        ensures
            t.buf@ == value@,
    {
        let mut t = Tile::new();
        let mut i: usize = 0;
        while i < value.len()
            invariant
                value@.len() == 16,
                0 <= i <= 16,
                forall|j: int| 0 <= j < i ==> t.buf@[j] == value@[j],
            decreases value.len() - i,
        {
            t.buf[i] = value[i];
            i += 1;
        }
        proof {
            assert(t.buf@ =~= value@);
        }
        t
    }

    /// The first byte of row `n`, as a one-byte slice.
    pub fn line(&self, n: usize) -> (r: &[u8])
        requires
            n < 8,
        ensures
            r@ == self.buf@.subrange(n * 2, n * 2 + 1),
    {
        vstd::slice::slice_subrange(self.buf.as_slice(), n * 2, n * 2 + 1)
    }

    /// The shade of pixel (`x`, `y`).
    pub fn pixel(&self, x: usize, y: usize) -> (c: Color)
        requires
            x < 8,
            y < 8,
        ensures
            c == color_of(tile_pixel(self.buf@, x as int, y as int)),
    {
        let a = self.buf[y * 2];
        let b = self.buf[y * 2 + 1];
        let low = bit::get(b, x as u8);
        let high = bit::get(a, x as u8);
        proof {
            bit::lemma_pair_bits(high, low);
        }
        Color::from_bits((high << 1) | low)
    }

    /// The shades of row `n` taken from bit 7 down to bit 1: the range is
    /// empty, so the row comes back empty.
    pub fn line_as_ci(&self, n: usize) -> (row: Vec<Color>)
        requires
            n < 8,
        ensures
            row@.len() == 0,
    {
        let a = self.buf[n * 2];
        let b = self.buf[n * 2 + 1];
        let mut row: Vec<Color> = Vec::new();
        let mut i: u8 = 7;
        while i < 0
            invariant
                row@.len() == 0,
            decreases 8 - i,
        {
            let low = bit::get(b, i);
            let high = bit::get(a, i);
            proof {
                bit::lemma_pair_bits(high, low);
            }
            row.push(Color::from_bits((high << 1) | low));
            i += 1;
        }
        row
    }
}

/// The background: its tile map and the tile data that the map indexes.
pub struct Background {
    pub map: Vec<u8>,
    pub data: Vec<u8>,
}

impl Background {
    pub open spec fn wf(&self) -> bool {
        self.map@.len() == BG_TILE_MAP_SIZE && self.data@.len() == BG_TILE_DATA_SIZE
    }

    /// The tile at index `i` of the tile data (`i * 16` must fit in a byte).
    fn tile_from_index(&self, i: u8) -> (t: Tile)
        requires
            self.wf(),
            i < 16,
        ensures
            t.buf@ == self.data@.subrange(i * 16, i * 16 + 16),
    {
        let offset = i * 16;
        let tile_arr = vstd::slice::slice_subrange(
            self.data.as_slice(),
            offset as usize,
            offset as usize + 16,
        );
        Tile::from_slice(tile_arr)
    }
}

impl Background {
    /// Draws the 32x32 tiles of the map into an RGB24 buffer with `pitch` bytes
    /// per row, tile `i` at row `i / 32` and column `i % 32`, in map order.
    pub fn draw(&self, buf: &mut Vec<u8>, pitch: usize)
        requires
            self.wf(),
            forall|j: int| 0 <= j < BG_TILE_MAP_SIZE ==> #[trigger] self.map@[j] < 16,
            255 * pitch + 768 <= old(buf)@.len(),
        ensures
            final(buf)@ == drawn(old(buf)@, self.map@, self.data@, pitch as int, 0x10000),
    {
        let ghost b0 = buf@;
        let blen = buf.len();
        let mut i: usize = 0;
        while i < self.map.len()
            invariant
                self.wf(),
                forall|j: int| 0 <= j < BG_TILE_MAP_SIZE ==> #[trigger] self.map@[j] < 16,
                255 * pitch + 768 <= b0.len(),
                b0.len() == blen,
                buf@.len() == b0.len(),
                0 <= i <= BG_TILE_MAP_SIZE,
                buf@ == drawn(b0, self.map@, self.data@, pitch as int, (i * 64) as nat),
            decreases BG_TILE_MAP_SIZE - i,
        {
            let ti = self.map[i];
            let tile = self.tile_from_index(ti);
            let pixel_row = (i / 32) * 8;
            let pixel_col = (i % 32) * 8;
            let mut y: usize = 0;
            while y < 8
                invariant
                    self.wf(),
                    255 * pitch + 768 <= b0.len(),
                    b0.len() == blen,
                    buf@.len() == b0.len(),
                    0 <= i < BG_TILE_MAP_SIZE,
                    ti == self.map@[i as int],
                    ti < 16,
                    tile.buf@ == self.data@.subrange(ti * 16, ti * 16 + 16),
                    pixel_row == (i / 32) * 8,
                    pixel_col == (i % 32) * 8,
                    0 <= y <= 8,
                    buf@ == drawn(b0, self.map@, self.data@, pitch as int, (i * 64 + y * 8) as nat),
                decreases 8 - y,
            {
                let offset_y = pixel_row + y;
                let mut x: usize = 0;
                while x < 8
                    invariant
                        self.wf(),
                        255 * pitch + 768 <= b0.len(),
                        b0.len() == blen,
                        buf@.len() == b0.len(),
                        0 <= i < BG_TILE_MAP_SIZE,
                        ti == self.map@[i as int],
                        ti < 16,
                        tile.buf@ == self.data@.subrange(ti * 16, ti * 16 + 16),
                        pixel_row == (i / 32) * 8,
                        pixel_col == (i % 32) * 8,
                        0 <= y < 8,
                        offset_y == pixel_row + y,
                        0 <= x <= 8,
                        buf@ == drawn(b0, self.map@, self.data@, pitch as int, (i * 64 + y * 8 + x) as nat),
                    decreases 8 - x,
                {
                    let color = tile.pixel(x, y);
                    let rgb = color.to_rgb();
                    let offset_x = pixel_col + x;
                    proof {
                        lemma_pixel_offset(i as int, y as int, x as int, pitch as int);
                        assert(offset_y <= 255);
                        assert(offset_y * pitch <= 255 * pitch) by (nonlinear_arith)
                            requires
                                offset_y <= 255,
                        ;
                    }
                    let offset = (offset_y * pitch) + offset_x * 3;
                    buf.set(offset, rgb.0);
                    buf.set(offset + 1, rgb.1);
                    buf.set(offset + 2, rgb.2);
                    x += 1;
                }
                y += 1;
            }
            i += 1;
        }
    }
}

/// Pixel `n` of the background, in drawing order: tile `n / 64`, row
/// `(n / 8) % 8` and column `n % 8` of that tile.
pub open spec fn pixel_offset(n: int, pitch: int) -> int {
    let i = n / 64;
    ((i / 32) * 8 + (n / 8) % 8) * pitch + ((i % 32) * 8 + n % 8) * 3
}

/// The RGB value of pixel `n` of the background.
pub open spec fn pixel_rgb(map: Seq<u8>, data: Seq<u8>, n: int) -> (u8, u8, u8) {
    let t = map[n / 64] as int;
    rgb_of(color_of(tile_pixel(data.subrange(t * 16, t * 16 + 16), n % 8, (n / 8) % 8)))
}

/// The buffer after drawing the first `n` pixels of the background, three bytes
/// each.
pub open spec fn drawn(buf: Seq<u8>, map: Seq<u8>, data: Seq<u8>, pitch: int, n: nat) -> Seq<u8>
    decreases n,
{
    if n == 0 {
        buf
    } else {
        let m = (n - 1) as nat;
        let o = pixel_offset(m as int, pitch);
        let c = pixel_rgb(map, data, m as int);
        drawn(buf, map, data, pitch, m).update(o, c.0).update(o + 1, c.1).update(o + 2, c.2)
    }
}

/// Where pixel (`x`, `y`) of tile `i` lands, and that it lies inside a buffer
/// of 255 rows of `pitch` bytes and one of 768.
proof fn lemma_pixel_offset(i: int, y: int, x: int, pitch: int)
    requires
        0 <= i < 1024,
        0 <= y < 8,
        0 <= x < 8,
        0 <= pitch,
    ensures
        ({
            let n = i * 64 + y * 8 + x;
            &&& n / 64 == i
            &&& (n / 8) % 8 == y
            &&& n % 8 == x
            &&& pixel_offset(n, pitch) == ((i / 32) * 8 + y) * pitch + ((i % 32) * 8 + x) * 3
        }),
        ((i / 32) * 8 + y) * pitch <= 255 * pitch,
        ((i / 32) * 8 + x) * 3 + 2 < 768,
        ((i % 32) * 8 + x) * 3 + 2 < 768,
{
    let n = i * 64 + y * 8 + x;
    assert(n / 64 == i && (n / 8) % 8 == y && n % 8 == x) by (nonlinear_arith)
        requires
            n == i * 64 + y * 8 + x,
            0 <= y < 8,
            0 <= x < 8,
            0 <= i,
    ;
    assert(((i / 32) * 8 + y) * pitch <= 255 * pitch) by (nonlinear_arith)
        requires
            0 <= i < 1024,
            0 <= y < 8,
            0 <= pitch,
    ;
}

/// The picture processor; it reads the memory it is handed.
/// Component `j` of an RGB triple: 0 red, 1 green, 2 blue.
pub open spec fn rgb_part(c: (u8, u8, u8), j: int) -> u8 {
    if j == 0 {
        c.0
    } else if j == 1 {
        c.1
    } else {
        c.2
    }
}

/// Two pixels on distinct rows or columns of a 256x256 picture with rows of at
/// least 768 bytes start at least three bytes apart.
proof fn lemma_rows_cols_apart(r1: int, c1: int, r2: int, c2: int, pitch: int)
    requires
        0 <= r1 < 256,
        0 <= r2 < 256,
        0 <= c1 < 256,
        0 <= c2 < 256,
        r1 != r2 || c1 != c2,
        pitch >= 768,
    ensures
        r1 * pitch + c1 * 3 >= r2 * pitch + c2 * 3 + 3 || r2 * pitch + c2 * 3 >= r1 * pitch + c1
            * 3 + 3,
{
    if r1 > r2 {
        assert(r1 * pitch - r2 * pitch >= pitch) by (nonlinear_arith)
            requires
                r1 - r2 >= 1,
                pitch >= 0,
        ;
    } else if r2 > r1 {
        assert(r2 * pitch - r1 * pitch >= pitch) by (nonlinear_arith)
            requires
                r2 - r1 >= 1,
                pitch >= 0,
        ;
    }
}

/// Where the `n`-th pixel of the drawing order starts, within the buffer.
proof fn lemma_pixel_bounds(n: int, pitch: int)
    requires
        0 <= n < 0x10000,
        pitch >= 0,
    ensures
        0 <= pixel_offset(n, pitch),
        pixel_offset(n, pitch) + 2 < 255 * pitch + 768,
{
    let i = n / 64;
    let r = (i / 32) * 8 + (n / 8) % 8;
    let c = (i % 32) * 8 + n % 8;
    assert(0 <= r < 256 && 0 <= c < 256);
    assert(0 <= r * pitch <= 255 * pitch) by (nonlinear_arith)
        requires
            0 <= r < 256,
            pitch >= 0,
    ;
}

/// Distinct pixels of the drawing order do not overlap.
proof fn lemma_pixels_apart(m: int, n: int, pitch: int)
    requires
        0 <= m < 0x10000,
        0 <= n < 0x10000,
        m != n,
        pitch >= 768,
    ensures
        pixel_offset(m, pitch) >= pixel_offset(n, pitch) + 3 || pixel_offset(n, pitch)
            >= pixel_offset(m, pitch) + 3,
{
    let im = m / 64;
    let in_ = n / 64;
    assert(m == 64 * im + 8 * ((m / 8) % 8) + m % 8);
    assert(n == 64 * in_ + 8 * ((n / 8) % 8) + n % 8);
    assert(im == 32 * (im / 32) + im % 32);
    assert(in_ == 32 * (in_ / 32) + in_ % 32);
    let rm = (im / 32) * 8 + (m / 8) % 8;
    let cm = (im % 32) * 8 + m % 8;
    let rn = (in_ / 32) * 8 + (n / 8) % 8;
    let cn = (in_ % 32) * 8 + n % 8;
    lemma_rows_cols_apart(rm, cm, rn, cn, pitch);
}

/// After drawing the first `k` pixels, each of them holds its color.
proof fn lemma_drawn_pixels(buf: Seq<u8>, map: Seq<u8>, data: Seq<u8>, pitch: int, k: nat)
    requires
        pitch >= 768,
        255 * pitch + 768 <= buf.len(),
        k <= 0x10000,
    ensures
        drawn(buf, map, data, pitch, k).len() == buf.len(),
        forall|m: int, j: int|
            0 <= m < k && 0 <= j < 3 ==> #[trigger] drawn(buf, map, data, pitch, k)[pixel_offset(
                m,
                pitch,
            ) + j] == rgb_part(pixel_rgb(map, data, m), j),
    decreases k,
{
    if k > 0 {
        let p = (k - 1) as nat;
        lemma_drawn_pixels(buf, map, data, pitch, p);
        lemma_pixel_bounds(p as int, pitch);
        let o = pixel_offset(p as int, pitch);
        let prev = drawn(buf, map, data, pitch, p);
        assert forall|m: int, j: int| 0 <= m < k && 0 <= j < 3 implies #[trigger] drawn(
            buf,
            map,
            data,
            pitch,
            k,
        )[pixel_offset(m, pitch) + j] == rgb_part(pixel_rgb(map, data, m), j) by {
            if m < p {
                lemma_pixels_apart(m, p as int, pitch);
                lemma_pixel_bounds(m, pitch);
                assert(prev[pixel_offset(m, pitch) + j] == rgb_part(pixel_rgb(map, data, m), j));
            }
        }
    }
}

/// Drawing the background paints pixel (`x`, `y`) of the tile that map entry
/// `i` names (the shade `Tile::pixel(x, y)` gives that tile, as three RGB bytes)
/// at row (i / 32) * 8 + y and column (i % 32) * 8 + x of the buffer: tiles are
/// laid out 32 to a row, not mirrored or flipped. With rows of at least 768
/// bytes no pixel covers another; with shorter rows pixels overlap.
pub proof fn lemma_background_pixels(
    buf: Seq<u8>,
    map: Seq<u8>,
    data: Seq<u8>,
    pitch: int,
    i: int,
    x: int,
    y: int,
)
    requires
        pitch >= 768,
        255 * pitch + 768 <= buf.len(),
        0 <= i < 1024,
        0 <= x < 8,
        0 <= y < 8,
    ensures
        ({
            let t = map[i] as int;
            let shade = rgb_of(color_of(tile_pixel(data.subrange(t * 16, t * 16 + 16), x, y)));
            let at = ((i / 32) * 8 + y) * pitch + ((i % 32) * 8 + x) * 3;
            let out = drawn(buf, map, data, pitch, 0x10000);
            &&& out.len() == buf.len()
            &&& out[at] == shade.0
            &&& out[at + 1] == shade.1
            &&& out[at + 2] == shade.2
        }),
{
    let n = i * 64 + y * 8 + x;
    lemma_pixel_offset(i, y, x, pitch);
    lemma_drawn_pixels(buf, map, data, pitch, 0x10000);
    let out = drawn(buf, map, data, pitch, 0x10000);
    assert(out[pixel_offset(n, pitch) + 0] == rgb_part(pixel_rgb(map, data, n), 0));
    assert(out[pixel_offset(n, pitch) + 1] == rgb_part(pixel_rgb(map, data, n), 1));
    assert(out[pixel_offset(n, pitch) + 2] == rgb_part(pixel_rgb(map, data, n), 2));
}

pub struct PPU {}

impl PPU {
    pub fn new() -> (p: PPU)
        ensures
            p == (PPU {}),
    {
        PPU {}
    }

    /// Whether the display is on (LCDC bit 7).
    pub fn lcd_ppu_en(&self, mem: &Memory) -> (r: bool)
        ensures
            r == (bit::bit_of(mem.byte_at(LCDC), 7) == 1),
    {
        bit::is_set(mem.lcdc(), 7)
    }

    /// The background tile data (LCDC bit 4 picks the block at 0x8000, else
    /// 0x8800) and tile map (LCDC bit 3 picks the map at 0x9C00, else 0x9800).
    pub fn background(&self, mem: &Memory) -> (bg: Background)
        ensures
            bg.wf(),
            forall|j: int|
                0 <= j < BG_TILE_DATA_SIZE ==> #[trigger] bg.data@[j] == mem.byte_at(
                    (bg_data_start(*mem) + j) as u16,
                ),
            forall|j: int|
                0 <= j < BG_TILE_MAP_SIZE ==> #[trigger] bg.map@[j] == mem.byte_at(
                    (bg_map_start(*mem) + j) as u16,
                ),
    {
        let bg_data_mode = bit::is_set(mem.lcdc(), 4);
        let data_start = if bg_data_mode {
            BG_TILE_DATA_1_START
        } else {
            BG_TILE_DATA_0_START
        };
        let data = copy_range(mem, data_start, BG_TILE_DATA_SIZE);
        let bg_tile_mode = bit::is_set(mem.lcdc(), 3);
        let map_start = if bg_tile_mode {
            BG_TILE_MAP_1_START
        } else {
            BG_TILE_MAP_0_START
        };
        let map = copy_range(mem, map_start, BG_TILE_MAP_SIZE);
        Background { map, data }
    }

    /// The bottom-right corner of the visible background: the scroll registers
    /// moved by the screen size less one, wrapping.
    pub fn bg_viewport(&self, mem: &Memory) -> (r: (u8, u8))
        ensures
            r == (((mem.byte_at(SCY as u16) + 143) % 256) as u8, ((mem.byte_at(SCX as u16) + 159)
                % 256) as u8),
    {
        let sy = mem.read(SCY as u16).wrapping_add(143);
        let sx = mem.read(SCX as u16).wrapping_add(159);
        (sy, sx)
    }

    /// Whether objects are 8x16 (LCDC bit 2) rather than 8x8.
    pub fn obj_size(&self, mem: &Memory) -> (r: bool)
        ensures
            r == (bit::bit_of(mem.byte_at(LCDC), 2) == 1),
    {
        bit::is_set(mem.lcdc(), 2)
    }

    pub fn obj_enable(&self, mem: &Memory) -> (r: bool)
        ensures
            r == (bit::bit_of(mem.byte_at(LCDC), 1) == 1),
    {
        bit::is_set(mem.lcdc(), 1)
    }

    pub fn bg_window_enable(&self, mem: &Memory) -> (r: bool)
        ensures
            r == (bit::bit_of(mem.byte_at(LCDC), 0) == 1),
    {
        bit::is_set(mem.lcdc(), 0)
    }

    pub fn bg_palette(&self, mem: &Memory) -> (p: Palette)
        ensures
            p.0 == mem.byte_at(BGP),
    {
        mem.bg_pal().into()
    }

    pub fn obj_palette_0(&self, mem: &Memory) -> (p: Palette)
        ensures
            p.0 == mem.byte_at(OBP0),
    {
        mem.obj_pal_0().into()
    }

    /// Draws the background of memory `mem` into an RGB24 buffer with `pitch`
    /// bytes per row; every tile index of the map must be below 16.
    pub fn draw_bg_tiles(&mut self, mem: &Memory, buf: &mut Vec<u8>, pitch: usize)
        requires
            forall|j: int| 0 <= j < BG_TILE_MAP_SIZE ==> #[trigger] bg_map(*mem)[j] < 16,
            255 * pitch + 768 <= old(buf)@.len(),
        ensures
            final(buf)@ == drawn(old(buf)@, bg_map(*mem), bg_data(*mem), pitch as int, 0x10000),
    {
        let bg = self.background(mem);
        proof {
            assert(bg.map@ =~= bg_map(*mem));
            assert(bg.data@ =~= bg_data(*mem));
        }
        bg.draw(buf, pitch);
    }

    pub fn obj_palette_1(&self, mem: &Memory) -> (p: Palette)
        ensures
            p.0 == mem.byte_at(OBP1),
    {
        mem.obj_pal_1().into()
    }
}

/// The background tile map that memory holds.
pub open spec fn bg_map(mem: Memory) -> Seq<u8> {
    Seq::new(BG_TILE_MAP_SIZE as nat, |j: int| mem.byte_at((bg_map_start(mem) + j) as u16))
}

/// The background tile data that memory holds.
pub open spec fn bg_data(mem: Memory) -> Seq<u8> {
    Seq::new(BG_TILE_DATA_SIZE as nat, |j: int| mem.byte_at((bg_data_start(mem) + j) as u16))
}

/// Where the background tile data starts.
pub open spec fn bg_data_start(mem: Memory) -> int {
    if bit::bit_of(mem.byte_at(LCDC), 4) == 1 {
        BG_TILE_DATA_1_START as int
    } else {
        BG_TILE_DATA_0_START as int
    }
}

/// Where the background tile map starts.
pub open spec fn bg_map_start(mem: Memory) -> int {
    if bit::bit_of(mem.byte_at(LCDC), 3) == 1 {
        BG_TILE_MAP_1_START as int
    } else {
        BG_TILE_MAP_0_START as int
    }
}

/// The `len` bytes from `start` on.
fn copy_range(mem: &Memory, start: usize, len: usize) -> (v: Vec<u8>)
    requires
        start + len <= 0x10000,
    ensures
        v@.len() == len,
        forall|j: int| 0 <= j < len ==> #[trigger] v@[j] == mem.byte_at((start + j) as u16),
{
    let mut v: Vec<u8> = Vec::new();
    let mut j: usize = 0;
    while j < len
        invariant
            start + len <= 0x10000,
            0 <= j <= len,
            v@.len() == j,
            forall|k: int| 0 <= k < j ==> #[trigger] v@[k] == mem.byte_at((start + k) as u16),
        decreases len - j,
    {
        v.push(mem.read((start + j) as u16));
        j += 1;
    }
    v
}

} // verus!
