use vstd::prelude::*;

use crate::utils::bit;

verus! {

pub const ROM_BANK_0_START: usize = 0x0000;
pub const ROM_BANK_0_END: usize = 0x03FFF;
pub const ROM_BANK_0_LEN: usize = 0x4000;

pub const ROM_BANK_1_START: usize = 0x4000;
pub const ROM_BANK_1_END: usize = 0x7FFF;
pub const ROM_BANK_1_LEN: usize = 0x4000;

pub const VRAM_START: usize = 0x8000;
pub const VRAM_END: usize = 0x9FFF;
pub const VRAM_LEN: usize = 0x2000;

pub const ERAM_START: usize = 0xA000;
pub const ERAM_END: usize = 0xBFFF;
pub const ERAM_LEN: usize = 0x2000;

pub const WRAM_0_START: usize = 0xC000;
pub const WRAM_0_END: usize = 0xCFFF;
pub const WRAM_0_LEN: usize = 0x1000;

pub const WRAM_1_START: usize = 0xD000;
pub const WRAM_1_END: usize = 0xDFFF;
/// The second work-RAM bank is sized from the start of the first bank, so only
/// its first 0x1000 bytes are reachable through an address.
pub const WRAM_1_LEN: usize = 0x2000;

pub const ECHO_RAM_START: usize = 0xE000;
pub const ECHO_RAM_END: usize = 0xFDFF;
pub const ECHO_RAM_LEN: usize = 0x1E00;

pub const OAM_START: usize = 0xFE00;
pub const OAM_END: usize = 0xFE9F;
pub const OAM_LEN: usize = 0xA0;

pub const UNUSED_START: usize = 0xFEA0;
pub const UNUSED_END: usize = 0xFEFF;
pub const UNUSED_LEN: usize = 0x60;

pub const IO_START: usize = 0xFF00;
pub const IO_END: usize = 0xFF7F;
pub const IO_LEN: usize = 0x80;

pub const HRAM_START: usize = 0xFF80;
pub const HRAM_END: usize = 0xFFFE;
pub const HRAM_LEN: usize = 0x7F;

pub const IE_REGISTER: usize = 0xFFFF;

pub const LCDC: u16 = 0xFF40;
pub const BGP: u16 = 0xFF47;
pub const OBP0: u16 = 0xFF48;
pub const OBP1: u16 = 0xFF49;

/// The storage cell behind a bus address. Addresses in the unused block
/// 0xFEA0..=0xFEFF land in object attribute memory, at the same offset from its
/// start; every other address has a cell of its own.
pub open spec fn phys(addr: u16) -> int {
    if UNUSED_START <= addr <= UNUSED_END {
        addr - (UNUSED_START - OAM_START)
    } else {
        addr as int
    }
}

/// The cells after a sequence of (address, value) writes, applied in order.
pub open spec fn apply_writes(cells: Seq<u8>, ws: Seq<(u16, u8)>) -> Seq<u8>
    decreases ws.len(),
{
    if ws.len() == 0 {
        cells
    } else {
        apply_writes(cells, ws.drop_last()).update(phys(ws.last().0), ws.last().1)
    }
}

/// The register values that the boot ROM leaves behind, as (address, value).
pub open spec fn dmg_init_table() -> Seq<(u16, u8)> {
    seq![
        (0xFF00u16, 0xCFu8),
        (0xFF01, 0x00),
        (0xFF02, 0x7E),
        (0xFF04, 0xAB),
        (0xFF05, 0x00),
        (0xFF06, 0x00),
        (0xFF07, 0xF8),
        (0xFF0F, 0xE1),
        (0xFF10, 0x80),
        (0xFF11, 0xBF),
        (0xFF12, 0xF3),
        (0xFF13, 0xFF),
        (0xFF14, 0xBF),
        (0xFF16, 0x3F),
        (0xFF17, 0x00),
        (0xFF18, 0xFF),
        (0xFF19, 0xBF),
        (0xFF1A, 0x7F),
        (0xFF1B, 0xFF),
        (0xFF1C, 0x9F),
        (0xFF1D, 0xFF),
        (0xFF1E, 0xBF),
        (0xFF20, 0xFF),
        (0xFF21, 0x00),
        (0xFF22, 0x00),
        (0xFF23, 0xBF),
        (0xFF24, 0x77),
        (0xFF25, 0xF3),
        (0xFF26, 0xF1),
        (0xFF40, 0x91),
        (0xFF41, 0x85),
        (0xFF42, 0x00),
        (0xFF43, 0x00),
        (0xFF44, 0x00),
        (0xFF45, 0x00),
        (0xFF46, 0xFF),
        (0xFF47, 0xFC),
        (0xFF4A, 0x00),
        (0xFF4B, 0x00),
        (0xFFFF, 0x00),
    ]
}

/// The 64 KiB address space of the machine, with the address and data lines
/// that the buses drive.
pub struct Memory {
    cells: [u8; 0x10000],
    addr: u16,
    data: u8,
}

impl Memory {
    /// The storage cells, indexed by `phys` of an address.
    pub closed spec fn cells(self) -> Seq<u8> {
        self.cells@
    }

    /// The value on the address line.
    pub closed spec fn addr_line(self) -> u16 {
        self.addr
    }

    /// The value on the data line.
    pub closed spec fn data_line(self) -> u8 {
        self.data
    }

    /// This memory after storing `val` in the cell behind `addr`.
    pub closed spec fn stored(self, addr: u16, val: u8) -> Memory {
        Memory { cells: vstd::array::spec_array_update(self.cells, phys(addr), val), ..self }
    }

    /// This memory with `addr` on the address line.
    pub closed spec fn with_addr_line(self, addr: u16) -> Memory {
        Memory { addr, ..self }
    }

    /// This memory with `data` on the data line.
    pub closed spec fn with_data_line(self, data: u8) -> Memory {
        Memory { data, ..self }
    }

    /// What a read of `addr` gives.
    pub open spec fn byte_at(self, addr: u16) -> u8 {
        self.cells()[phys(addr)]
    }

    pub fn new() -> (m: Memory)
        ensures
            m.cells() == Seq::new(0x10000, |i: int| 0u8),
            m.addr_line() == 0,
            m.data_line() == 0,
    {
        let cells = [0u8; 0x10000];
        let m = Memory { cells, addr: 0, data: 0 };
        assert(m.cells@ =~= Seq::new(0x10000, |i: int| 0u8));
        m
    }

    fn phys_index(addr: u16) -> (p: usize)
        ensures
            p == phys(addr),
            p < 0x10000,
            !(UNUSED_START <= p <= UNUSED_END),
    {
        if addr as usize >= UNUSED_START && addr as usize <= UNUSED_END {
            addr as usize - (UNUSED_START - OAM_START)
        } else {
            addr as usize
        }
    }

    pub fn read(&self, addr: u16) -> (r: u8)
        ensures
            r == self.byte_at(addr),
    {
        let p = Self::phys_index(addr);
        self.cells[p]
    }

    pub fn write(&mut self, addr: u16, val: u8)
        ensures
            *final(self) == old(self).stored(addr, val),
            final(self).cells() == old(self).cells().update(phys(addr), val),
            final(self).addr_line() == old(self).addr_line(),
            final(self).data_line() == old(self).data_line(),
    {
        let p = Self::phys_index(addr);
        self.cells[p] = val;
        proof {
            broadcast use vstd::array::axiom_spec_array_update, vstd::array::axiom_array_ext_equal;
            assert(self.cells =~= old(self).stored(addr, val).cells);
        }
    }


    /// The value on the address line.
    fn addr(&self) -> (r: u16)
        ensures
            r == self.addr_line(),
    {
        self.addr
    }

    /// The value on the data line.
    fn data(&self) -> (r: u8)
        ensures
            r == self.data_line(),
    {
        self.data
    }

    pub fn data_bus(&self, a: Accessor) -> (b: DataBus)
        ensures
            b.accessor == a,
    {
        DataBus { accessor: a }
    }

    pub fn address_bus(&self, a: Accessor) -> (b: AddressBus)
        ensures
            b.accessor == a,
    {
        AddressBus { accessor: a }
    }

    /// Writes the register values that the boot ROM leaves behind.
    pub fn init(&mut self)
        ensures
            final(self).cells() == apply_writes(old(self).cells(), dmg_init_table()),
            final(self).addr_line() == old(self).addr_line(),
            final(self).data_line() == old(self).data_line(),
    {
        let table = dmg_init();
        let mut i: usize = 0;
        while i < table.len()
            invariant
                table@ == dmg_init_table(),
                i <= table@.len(),
                self.cells() == apply_writes(old(self).cells(), table@.subrange(0, i as int)),
                self.addr_line() == old(self).addr_line(),
                self.data_line() == old(self).data_line(),
            decreases table@.len() - i,
        {
            let av = table[i];
            self.write(av.0, av.1);
            proof {
                assert(table@.subrange(0, i + 1).drop_last() =~= table@.subrange(0, i as int));
            }
            i = i + 1;
        }
        assert(table@.subrange(0, table@.len() as int) =~= table@);
    }

    pub fn read_current(&self) -> (r: u8)
        ensures
            r == self.byte_at(self.addr_line()),
    {
        self.read(self.addr())
    }

    pub fn write_current(&mut self)
        ensures
            *final(self) == old(self).stored(old(self).addr_line(), old(self).data_line()),
            final(self).cells() == old(self).cells().update(
                phys(old(self).addr_line()),
                old(self).data_line(),
            ),
            final(self).addr_line() == old(self).addr_line(),
            final(self).data_line() == old(self).data_line(),
    {
        let addr = self.addr();
        let data = self.data();
        self.write(addr, data);
    }

    pub fn assert_addr(&mut self, addr: u16)
        ensures
            *final(self) == old(self).with_addr_line(addr),
            final(self).cells() == old(self).cells(),
            final(self).addr_line() == addr,
            final(self).data_line() == old(self).data_line(),
    {
        self.addr = addr
    }

    pub fn assert_data(&mut self, data: u8)
        ensures
            *final(self) == old(self).with_data_line(data),
            final(self).cells() == old(self).cells(),
            final(self).addr_line() == old(self).addr_line(),
            final(self).data_line() == data,
    {
        self.data = data
    }

    /// The little-endian word at `addr` and `addr + 1`.
    pub fn read_word(&self, addr: u16) -> (r: u16)
        requires
            addr < 0xFFFF,
        ensures
            r == self.byte_at((addr + 1) as u16) as u16 * 256 + self.byte_at(addr) as u16,
    {
        let low = self.read(addr);
        let high = self.read(addr + 1);
        proof {
            bit::lemma_join_bytes(high, low, 0);
        }
        ((high as u16) << 8) | low as u16
    }

    /// Stores `data` little-endian: its low byte at `addr`, its high byte at `addr + 1`.
    pub fn write_word(&mut self, addr: u16, data: u16)
        requires
            addr < 0xFFFF,
        ensures
            *final(self) == old(self).stored(addr, (data % 256) as u8).stored(
                (addr + 1) as u16,
                (data / 256) as u8,
            ),
            final(self).cells() == old(self).cells().update(phys(addr), (data % 256) as u8).update(
                phys((addr + 1) as u16),
                (data / 256) as u8,
            ),
            final(self).addr_line() == old(self).addr_line(),
            final(self).data_line() == old(self).data_line(),
    {
        let low = (data & 0x00FF) as u8;
        let high = ((data & 0xFF00) >> 8) as u8;
        proof {
            bit::lemma_word_fields(data);
        }
        self.write(addr, low);
        self.write(addr + 1, high);
    }

    /// Adds one to the byte at `addr` and returns the new value.
    pub fn inc(&mut self, addr: u16) -> (r: u8)
        requires
            old(self).byte_at(addr) < 255,
        ensures
            r == old(self).byte_at(addr) + 1,
            *final(self) == old(self).stored(addr, r),
            final(self).cells() == old(self).cells().update(phys(addr), r),
            final(self).addr_line() == old(self).addr_line(),
            final(self).data_line() == old(self).data_line(),
    {
        let mut val = self.read(addr);
        val += 1;
        self.write(addr, val);
        val
    }

    /// Subtracts one from the byte at `addr` and returns the new value.
    pub fn dec(&mut self, addr: u16) -> (r: u8)
        requires
            old(self).byte_at(addr) > 0,
        ensures
            r == old(self).byte_at(addr) - 1,
            *final(self) == old(self).stored(addr, r),
            final(self).cells() == old(self).cells().update(phys(addr), r),
            final(self).addr_line() == old(self).addr_line(),
            final(self).data_line() == old(self).data_line(),
    {
        let mut val = self.read(addr);
        val -= 1;
        self.write(addr, val);
        val
    }

    /// Writes each `[address, value]` entry in order; the value is cut to a byte.
    pub fn load_state(&mut self, s: &Vec<[u16; 2]>)
        ensures
            final(self).cells() == apply_writes(old(self).cells(), state_writes(s@)),
            final(self).addr_line() == old(self).addr_line(),
            final(self).data_line() == old(self).data_line(),
    {
        let mut i: usize = 0;
        while i < s.len()
            invariant
                i <= s@.len(),
                self.cells() == apply_writes(old(self).cells(), state_writes(s@.subrange(0, i as int))),
                self.addr_line() == old(self).addr_line(),
                self.data_line() == old(self).data_line(),
            decreases s@.len() - i,
        {
            let state = s[i];
            let addr = state[0];
            let val = state[1] as u8;
            self.write(addr, val);
            proof {
                assert(state_writes(s@.subrange(0, i + 1)).drop_last() =~= state_writes(
                    s@.subrange(0, i as int),
                ));
            }
            i = i + 1;
        }
        assert(s@.subrange(0, s@.len() as int) =~= s@);
    }

    /// Copies `len` cells starting at `start`.
    fn region(&self, start: usize, len: usize) -> (r: Vec<u8>)
        requires
            start + len <= 0x10000,
        ensures
            r@ == self.cells().subrange(start as int, start + len),
    {
        let mut r: Vec<u8> = Vec::new();
        let mut i: usize = 0;
        while i < len
            invariant
                start + len <= 0x10000,
                i <= len,
                r@ == self.cells().subrange(start as int, start + i),
            decreases len - i,
        {
            r.push(self.cells[start + i]);
            proof {
                assert(r@ =~= self.cells().subrange(start as int, start + i + 1));
            }
            i = i + 1;
        }
        r
    }

    fn rom_0(&self) -> (r: Vec<u8>)
        ensures
            r@ == self.cells().subrange(ROM_BANK_0_START as int, (ROM_BANK_0_START + ROM_BANK_0_LEN) as int),
    {
        self.region(ROM_BANK_0_START, ROM_BANK_0_LEN)
    }

    fn rom_1(&self) -> (r: Vec<u8>)
        ensures
            r@ == self.cells().subrange(ROM_BANK_1_START as int, (ROM_BANK_1_START + ROM_BANK_1_LEN) as int),
    {
        self.region(ROM_BANK_1_START, ROM_BANK_1_LEN)
    }

    fn eram(&self) -> (r: Vec<u8>)
        ensures
            r@ == self.cells().subrange(ERAM_START as int, (ERAM_START + ERAM_LEN) as int),
    {
        self.region(ERAM_START, ERAM_LEN)
    }

    pub fn vram(&self) -> (r: Vec<u8>)
        ensures
            r@ == self.cells().subrange(VRAM_START as int, (VRAM_START + VRAM_LEN) as int),
    {
        self.region(VRAM_START, VRAM_LEN)
    }

    pub fn io(&self) -> (r: Vec<u8>)
        ensures
            r@ == self.cells().subrange(IO_START as int, (IO_START + IO_LEN) as int),
    {
        self.region(IO_START, IO_LEN)
    }

    pub fn hram(&self) -> (r: Vec<u8>)
        ensures
            r@ == self.cells().subrange(HRAM_START as int, (HRAM_START + HRAM_LEN) as int),
    {
        self.region(HRAM_START, HRAM_LEN)
    }

    pub fn wram_0(&self) -> (r: Vec<u8>)
        ensures
            r@ == self.cells().subrange(WRAM_0_START as int, (WRAM_0_START + WRAM_0_LEN) as int),
    {
        self.region(WRAM_0_START, WRAM_0_LEN)
    }

    /// The second work-RAM bank: its 0x1000 addressable bytes, then the bank's
    /// unreachable tail, which always holds zeros.
    pub fn wram_1(&self) -> (r: Vec<u8>)
        ensures
            r@ == self.cells().subrange(WRAM_1_START as int, WRAM_1_END + 1) + Seq::new(
                0x1000,
                |i: int| 0u8,
            ),
            r@.len() == WRAM_1_LEN,
    {
        let mut r = self.region(WRAM_1_START, WRAM_1_END + 1 - WRAM_1_START);
        let ghost bank = r@;
        let mut i: usize = 0;
        while i < 0x1000
            invariant
                i <= 0x1000,
                r@ == bank + Seq::new(i as nat, |k: int| 0u8),
            decreases 0x1000 - i,
        {
            r.push(0);
            proof {
                assert(r@ =~= bank + Seq::new((i + 1) as nat, |k: int| 0u8));
            }
            i = i + 1;
        }
        r
    }

    pub fn echo_ram(&self) -> (r: Vec<u8>)
        ensures
            r@ == self.cells().subrange(ECHO_RAM_START as int, (ECHO_RAM_START + ECHO_RAM_LEN) as int),
    {
        self.region(ECHO_RAM_START, ECHO_RAM_LEN)
    }

    pub fn oam(&self) -> (r: Vec<u8>)
        ensures
            r@ == self.cells().subrange(OAM_START as int, (OAM_START + OAM_LEN) as int),
    {
        self.region(OAM_START, OAM_LEN)
    }

    /// The unused block has no cells of its own (its addresses reach object
    /// attribute memory), so its bank always reads as zeros.
    pub fn unused(&self) -> (r: Vec<u8>)
        ensures
            r@ == Seq::new(UNUSED_LEN as nat, |i: int| 0u8),
    {
        let r = vec![0u8; UNUSED_LEN];
        assert(r@ =~= Seq::new(UNUSED_LEN as nat, |i: int| 0u8));
        r
    }

    /// The interrupt-enable register.
    pub fn ie(&self) -> (r: u8)
        ensures
            r == self.byte_at(IE_REGISTER as u16),
    {
        self.read(IE_REGISTER as u16)
    }

    /// Copies the first ROM bank's worth of `rom` into memory.
    pub fn load_rom(&mut self, rom: &[u8])
        requires
            rom@.len() >= ROM_BANK_0_LEN,
        ensures
            forall|a: int|
                0 <= a < ROM_BANK_0_LEN ==> #[trigger] final(self).cells()[a] == rom@[a],
            forall|a: int|
                ROM_BANK_0_LEN <= a < 0x10000 ==> #[trigger] final(self).cells()[a] == old(
                    self,
                ).cells()[a],
            final(self).cells().len() == 0x10000,
            final(self).addr_line() == old(self).addr_line(),
            final(self).data_line() == old(self).data_line(),
    {
        let mut i: usize = 0;
        while i < ROM_BANK_0_LEN
            invariant
                rom@.len() >= ROM_BANK_0_LEN,
                i <= ROM_BANK_0_LEN,
                self.cells().len() == 0x10000,
                forall|a: int| 0 <= a < i ==> #[trigger] self.cells()[a] == rom@[a],
                forall|a: int| i <= a < 0x10000 ==> #[trigger] self.cells()[a] == old(self).cells()[a],
                self.addr_line() == old(self).addr_line(),
                self.data_line() == old(self).data_line(),
            decreases ROM_BANK_0_LEN - i,
        {
            self.write(i as u16, rom[i]);
            i = i + 1;
        }
    }

    /// The LCD control register.
    pub fn lcdc(&self) -> (r: u8)
        ensures
            r == self.byte_at(LCDC),
    {
        self.read(LCDC)
    }

    /// The background palette register.
    pub fn bg_pal(&self) -> (r: u8)
        ensures
            r == self.byte_at(BGP),
    {
        self.read(BGP)
    }

    /// The first object palette register.
    pub fn obj_pal_0(&self) -> (r: u8)
        ensures
            r == self.byte_at(OBP0),
    {
        self.read(OBP0)
    }

    /// The second object palette register.
    pub fn obj_pal_1(&self) -> (r: u8)
        ensures
            r == self.byte_at(OBP1),
    {
        self.read(OBP1)
    }

    /// Every non-zero cell as `[address, value]`, bank by bank: the two ROM
    /// banks, external RAM, both work-RAM banks, echo RAM, object attribute
    /// memory, video RAM, I/O, high RAM and the interrupt-enable register.
    pub fn state(&self) -> (r: Vec<[u16; 2]>)
        ensures
            entry_pairs(r@) == state_entries(self.cells()),
    {
        let mut mem_state: Vec<[u16; 2]> = Vec::new();
        assert(entry_pairs(mem_state@) =~= Seq::<(u16, u16)>::empty());
        self.push_nonzero(&mut mem_state, ROM_BANK_0_START, ROM_BANK_0_END + 1);
        self.push_nonzero(&mut mem_state, ROM_BANK_1_START, ROM_BANK_1_END + 1);
        self.push_nonzero(&mut mem_state, ERAM_START, ERAM_END + 1);
        self.push_nonzero(&mut mem_state, WRAM_0_START, WRAM_0_END + 1);
        self.push_nonzero(&mut mem_state, WRAM_1_START, WRAM_1_END + 1);
        self.push_nonzero(&mut mem_state, ECHO_RAM_START, ECHO_RAM_END + 1);
        self.push_nonzero(&mut mem_state, OAM_START, OAM_END + 1);
        self.push_nonzero(&mut mem_state, VRAM_START, VRAM_END + 1);
        self.push_nonzero(&mut mem_state, IO_START, IO_END + 1);
        self.push_nonzero(&mut mem_state, HRAM_START, HRAM_END + 1);
        self.push_nonzero(&mut mem_state, IE_REGISTER, IE_REGISTER + 1);
        mem_state
    }

    /// Appends `[address, value]` for each non-zero cell with address in `lo..hi`.
    fn push_nonzero(&self, out: &mut Vec<[u16; 2]>, lo: usize, hi: usize)
        requires
            lo <= hi <= 0x10000,
        ensures
            entry_pairs(final(out)@) == entry_pairs(old(out)@) + nonzero_entries(
                self.cells(),
                lo as int,
                hi as int,
            ),
    {
        let mut i: usize = lo;
        while i < hi
            invariant
                lo <= i <= hi <= 0x10000,
                entry_pairs(out@) == entry_pairs(old(out)@) + nonzero_entries(
                    self.cells(),
                    lo as int,
                    i as int,
                ),
            decreases hi - i,
        {
            let v = self.cells[i];
            let ghost before = out@;
            if v != 0 {
                out.push([i as u16, v as u16]);
                assert(entry_pairs(out@) =~= entry_pairs(before) + seq![(i as u16, v as u16)]);
            }
            assert(entry_pairs(out@) =~= entry_pairs(old(out)@) + nonzero_entries(
                self.cells(),
                lo as int,
                i + 1,
            ));
            i = i + 1;
        }
    }
} // impl Memory



/// What the spec-level memory constructors do to the cells and the lines.
pub broadcast proof fn lemma_memory_updates(m: Memory, addr: u16, val: u8)
    ensures
        #[trigger] m.stored(addr, val).cells() == m.cells().update(phys(addr), val),
        m.stored(addr, val).addr_line() == m.addr_line(),
        m.stored(addr, val).data_line() == m.data_line(),
        #[trigger] m.with_addr_line(addr).cells() == m.cells(),
        m.with_addr_line(addr).addr_line() == addr,
        m.with_addr_line(addr).data_line() == m.data_line(),
        #[trigger] m.with_data_line(val).cells() == m.cells(),
        m.with_data_line(val).addr_line() == m.addr_line(),
        m.with_data_line(val).data_line() == val,
{
    broadcast use vstd::array::axiom_spec_array_update;
}

/// A read gives back what the last write to that address stored; a write
/// leaves every address with another storage cell as it was.
pub proof fn lemma_read_after_write(m: Memory, addr: u16, val: u8, other: u16)
    ensures
        m.stored(addr, val).byte_at(addr) == val,
        phys(other) != phys(addr) ==> m.stored(addr, val).byte_at(other) == m.byte_at(other),
{
    broadcast use vstd::array::group_array_axioms;

    lemma_memory_updates(m, addr, val);
    assert(m.cells().len() == 0x10000);
}

/// `[address, value]` entries read as pairs.
pub open spec fn entry_pairs(v: Seq<[u16; 2]>) -> Seq<(u16, u16)> {
    v.map_values(|e: [u16; 2]| (e[0], e[1]))
}

/// (address, value) for each non-zero cell with address in `lo..hi`, in address order.
pub open spec fn nonzero_entries(cells: Seq<u8>, lo: int, hi: int) -> Seq<(u16, u16)>
    decreases hi - lo,
{
    if hi <= lo {
        Seq::empty()
    } else {
        nonzero_entries(cells, lo, hi - 1) + if cells[hi - 1] != 0 {
            seq![((hi - 1) as u16, cells[hi - 1] as u16)]
        } else {
            Seq::empty()
        }
    }
}

/// What `state` lists for the cells `cells`.
pub open spec fn state_entries(cells: Seq<u8>) -> Seq<(u16, u16)> {
    nonzero_entries(cells, ROM_BANK_0_START as int, ROM_BANK_0_END + 1) + nonzero_entries(
        cells,
        ROM_BANK_1_START as int,
        ROM_BANK_1_END + 1,
    ) + nonzero_entries(cells, ERAM_START as int, ERAM_END + 1) + nonzero_entries(
        cells,
        WRAM_0_START as int,
        WRAM_0_END + 1,
    ) + nonzero_entries(cells, WRAM_1_START as int, WRAM_1_END + 1) + nonzero_entries(
        cells,
        ECHO_RAM_START as int,
        ECHO_RAM_END + 1,
    ) + nonzero_entries(cells, OAM_START as int, OAM_END + 1) + nonzero_entries(
        cells,
        VRAM_START as int,
        VRAM_END + 1,
    ) + nonzero_entries(cells, IO_START as int, IO_END + 1) + nonzero_entries(
        cells,
        HRAM_START as int,
        HRAM_END + 1,
    ) + nonzero_entries(cells, IE_REGISTER as int, IE_REGISTER + 1)
}

/// The writes that `load_state` makes for a list of `[address, value]` entries.
pub open spec fn state_writes(s: Seq<[u16; 2]>) -> Seq<(u16, u8)> {
    s.map_values(|e: [u16; 2]| (e[0], e[1] as u8))
}

/// The cells of the unused block, which no address reaches, hold zeros (as
/// they do in every memory this module builds).
pub open spec fn unused_clear(cells: Seq<u8>) -> bool {
    forall|i: int| UNUSED_START <= i <= UNUSED_END ==> #[trigger] cells[i] == 0
}

/// The writes for a list of (address, value) pairs, each value cut to a byte.
pub open spec fn pair_writes(p: Seq<(u16, u16)>) -> Seq<(u16, u8)> {
    p.map_values(|e: (u16, u16)| (e.0, e.1 as u8))
}

/// `base` with the non-zero cells of `cells` whose addresses are in `lo..hi`
/// laid over it.
pub open spec fn overlay(base: Seq<u8>, cells: Seq<u8>, lo: int, hi: int) -> Seq<u8> {
    Seq::new(base.len(), |i: int| if lo <= i < hi && cells[i] != 0 { cells[i] } else { base[i] })
}

proof fn lemma_apply_writes_len(c: Seq<u8>, ws: Seq<(u16, u8)>)
    requires
        c.len() == 0x10000,
    ensures
        apply_writes(c, ws).len() == c.len(),
    decreases ws.len(),
{
    if ws.len() > 0 {
        lemma_apply_writes_len(c, ws.drop_last());
    }
}

/// Writing `a` and then `b` is writing `a + b`.
proof fn lemma_apply_writes_append(c: Seq<u8>, a: Seq<(u16, u8)>, b: Seq<(u16, u8)>)
    ensures
        apply_writes(c, a + b) == apply_writes(apply_writes(c, a), b),
    decreases b.len(),
{
    if b.len() == 0 {
        assert(a + b =~= a);
    } else {
        lemma_apply_writes_append(c, a, b.drop_last());
        assert((a + b).drop_last() =~= a + b.drop_last());
        assert((a + b).last() == b.last());
    }
}

/// Writing the non-zero cells of a bank lays them over what was there.
proof fn lemma_nonzero_overlay(c: Seq<u8>, cells: Seq<u8>, lo: int, hi: int)
    requires
        0 <= lo,
        hi <= 0x10000,
        c.len() == 0x10000,
        cells.len() == 0x10000,
        hi <= UNUSED_START || lo > UNUSED_END,
    ensures
        apply_writes(c, pair_writes(nonzero_entries(cells, lo, hi))) == overlay(c, cells, lo, hi),
    decreases hi - lo,
{
    let ws = pair_writes(nonzero_entries(cells, lo, hi));
    if hi <= lo {
        assert(ws =~= Seq::<(u16, u8)>::empty());
        assert(overlay(c, cells, lo, hi) =~= c);
    } else {
        lemma_nonzero_overlay(c, cells, lo, hi - 1);
        let w = pair_writes(nonzero_entries(cells, lo, hi - 1));
        lemma_apply_writes_len(c, w);
        if cells[hi - 1] != 0 {
            let x = ((hi - 1) as u16, cells[hi - 1]);
            assert(ws =~= w.push(x));
            assert(w.push(x).drop_last() =~= w);
            assert(phys((hi - 1) as u16) == hi - 1);
            assert(apply_writes(c, ws) =~= overlay(c, cells, lo, hi));
        } else {
            assert(ws =~= w);
            assert(overlay(c, cells, lo, hi - 1) =~= overlay(c, cells, lo, hi));
        }
    }
}

/// Writing the entries of one more bank after those of `x`.
proof fn lemma_add_bank(z: Seq<u8>, cells: Seq<u8>, x: Seq<(u16, u16)>, lo: int, hi: int)
    requires
        0 <= lo,
        hi <= 0x10000,
        z.len() == 0x10000,
        cells.len() == 0x10000,
        hi <= UNUSED_START || lo > UNUSED_END,
    ensures
        apply_writes(z, pair_writes(x + nonzero_entries(cells, lo, hi))) == overlay(
            apply_writes(z, pair_writes(x)),
            cells,
            lo,
            hi,
        ),
{
    let y = nonzero_entries(cells, lo, hi);
    assert(pair_writes(x + y) =~= pair_writes(x) + pair_writes(y));
    lemma_apply_writes_append(z, pair_writes(x), pair_writes(y));
    lemma_apply_writes_len(z, pair_writes(x));
    lemma_nonzero_overlay(apply_writes(z, pair_writes(x)), cells, lo, hi);
}

/// Loading what `state` lists for a memory into a fresh memory gives back every
/// cell of it.
pub proof fn lemma_state_round_trip(cells: Seq<u8>, entries: Seq<[u16; 2]>)
    requires
        cells.len() == 0x10000,
        unused_clear(cells),
        entry_pairs(entries) == state_entries(cells),
    ensures
        apply_writes(Seq::new(0x10000, |i: int| 0u8), state_writes(entries)) == cells,
{
    let z = Seq::new(0x10000, |i: int| 0u8);
    let e: Seq<(u16, u16)> = Seq::empty();
    let s1 = nonzero_entries(cells, 0x0000, 0x4000);
    let s2 = s1 + nonzero_entries(cells, 0x4000, 0x8000);
    let s3 = s2 + nonzero_entries(cells, 0xA000, 0xC000);
    let s4 = s3 + nonzero_entries(cells, 0xC000, 0xD000);
    let s5 = s4 + nonzero_entries(cells, 0xD000, 0xE000);
    let s6 = s5 + nonzero_entries(cells, 0xE000, 0xFE00);
    let s7 = s6 + nonzero_entries(cells, 0xFE00, 0xFEA0);
    let s8 = s7 + nonzero_entries(cells, 0x8000, 0xA000);
    let s9 = s8 + nonzero_entries(cells, 0xFF00, 0xFF80);
    let s10 = s9 + nonzero_entries(cells, 0xFF80, 0xFFFF);
    let s11 = s10 + nonzero_entries(cells, 0xFFFF, 0x10000);
    assert(s11 == state_entries(cells));
    assert(state_writes(entries) =~= pair_writes(s11));
    assert(e + s1 =~= s1);
    assert(apply_writes(z, pair_writes(e)) == z) by {
        assert(pair_writes(e) =~= Seq::<(u16, u8)>::empty());
    }
    lemma_add_bank(z, cells, e, 0x0000, 0x4000);
    let c1 = overlay(z, cells, 0x0000, 0x4000);
    lemma_add_bank(z, cells, s1, 0x4000, 0x8000);
    let c2 = overlay(c1, cells, 0x4000, 0x8000);
    lemma_add_bank(z, cells, s2, 0xA000, 0xC000);
    let c3 = overlay(c2, cells, 0xA000, 0xC000);
    lemma_add_bank(z, cells, s3, 0xC000, 0xD000);
    let c4 = overlay(c3, cells, 0xC000, 0xD000);
    lemma_add_bank(z, cells, s4, 0xD000, 0xE000);
    let c5 = overlay(c4, cells, 0xD000, 0xE000);
    lemma_add_bank(z, cells, s5, 0xE000, 0xFE00);
    let c6 = overlay(c5, cells, 0xE000, 0xFE00);
    lemma_add_bank(z, cells, s6, 0xFE00, 0xFEA0);
    let c7 = overlay(c6, cells, 0xFE00, 0xFEA0);
    lemma_add_bank(z, cells, s7, 0x8000, 0xA000);
    let c8 = overlay(c7, cells, 0x8000, 0xA000);
    lemma_add_bank(z, cells, s8, 0xFF00, 0xFF80);
    let c9 = overlay(c8, cells, 0xFF00, 0xFF80);
    lemma_add_bank(z, cells, s9, 0xFF80, 0xFFFF);
    let c10 = overlay(c9, cells, 0xFF80, 0xFFFF);
    lemma_add_bank(z, cells, s10, 0xFFFF, 0x10000);
    let c11 = overlay(c10, cells, 0xFFFF, 0x10000);
    assert(apply_writes(z, pair_writes(s11)) == c11);
    assert forall|i: int| 0 <= i < 0x10000 implies #[trigger] c11[i] == cells[i] by {
        if UNUSED_START <= i <= UNUSED_END {
            assert(cells[i] == 0);
        }
    }
    assert(c11 =~= cells);
}

fn dmg_init() -> (v: Vec<(u16, u8)>)
    ensures
        v@ == dmg_init_table(),
{
    let v = vec![
        (0xFF00u16, 0xCFu8),
        (0xFF01, 0x00),
        (0xFF02, 0x7E),
        (0xFF04, 0xAB),
        (0xFF05, 0x00),
        (0xFF06, 0x00),
        (0xFF07, 0xF8),
        (0xFF0F, 0xE1),
        (0xFF10, 0x80),
        (0xFF11, 0xBF),
        (0xFF12, 0xF3),
        (0xFF13, 0xFF),
        (0xFF14, 0xBF),
        (0xFF16, 0x3F),
        (0xFF17, 0x00),
        (0xFF18, 0xFF),
        (0xFF19, 0xBF),
        (0xFF1A, 0x7F),
        (0xFF1B, 0xFF),
        (0xFF1C, 0x9F),
        (0xFF1D, 0xFF),
        (0xFF1E, 0xBF),
        (0xFF20, 0xFF),
        (0xFF21, 0x00),
        (0xFF22, 0x00),
        (0xFF23, 0xBF),
        (0xFF24, 0x77),
        (0xFF25, 0xF3),
        (0xFF26, 0xF1),
        (0xFF40, 0x91),
        (0xFF41, 0x85),
        (0xFF42, 0x00),
        (0xFF43, 0x00),
        (0xFF44, 0x00),
        (0xFF45, 0x00),
        (0xFF46, 0xFF),
        (0xFF47, 0xFC),
        (0xFF4A, 0x00),
        (0xFF4B, 0x00),
        (0xFFFF, 0x00),
    ];
    assert(v@ =~= dmg_init_table());
    v
}

/// A bus user.
#[derive(Debug, Clone, Copy, PartialEq, Eq, Structural)]
pub enum Accessor {
    CPU,
    PPU,
}

impl Accessor {
    pub fn as_str(&self) -> (s: &'static str)
        ensures
            s@ == (match self {
                Accessor::CPU => "cpu"@,
                Accessor::PPU => "ppu"@,
            }),
    {
        match self {
            Accessor::CPU => "cpu",
            Accessor::PPU => "ppu",
        }
    }
}

/// The data bus: drives and samples the data line of a memory.
pub struct DataBus {
    pub accessor: Accessor,
}

impl DataBus {
    /// The byte at the address on the address line.
    pub fn read(&self, mem: &Memory) -> (r: u8)
        ensures
            r == mem.byte_at(mem.addr_line()),
    {
        mem.read_current()
    }

    /// Puts `data` on the data line.
    pub fn drive(&mut self, mem: &mut Memory, data: u8)
        ensures
            *final(mem) == old(mem).with_data_line(data),
            final(mem).cells() == old(mem).cells(),
            final(mem).addr_line() == old(mem).addr_line(),
            final(mem).data_line() == data,
            *final(self) == *old(self),
    {
        mem.assert_data(data);
    }

    /// Stores the data line at the address on the address line.
    pub fn write(&mut self, mem: &mut Memory)
        ensures
            *final(mem) == old(mem).stored(old(mem).addr_line(), old(mem).data_line()),
            final(mem).cells() == old(mem).cells().update(
                phys(old(mem).addr_line()),
                old(mem).data_line(),
            ),
            final(mem).addr_line() == old(mem).addr_line(),
            final(mem).data_line() == old(mem).data_line(),
            *final(self) == *old(self),
    {
        mem.write_current();
    }
}

/// The address bus: drives the address line of a memory.
pub struct AddressBus {
    pub accessor: Accessor,
}

impl AddressBus {
    /// Puts `addr` on the address line.
    pub fn drive(&mut self, mem: &mut Memory, addr: u16)
        ensures
            *final(mem) == old(mem).with_addr_line(addr),
            final(mem).cells() == old(mem).cells(),
            final(mem).addr_line() == addr,
            final(mem).data_line() == old(mem).data_line(),
            *final(self) == *old(self),
    {
        mem.assert_addr(addr);
    }

    /// The address on the address line.
    pub fn current(&self, mem: &Memory) -> (r: u16)
        ensures
            r == mem.addr_line(),
    {
        mem.addr()
    }
}

} // verus!
