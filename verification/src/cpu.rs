pub mod cpu;
pub mod instr;
mod exec;

use vstd::prelude::*;

pub use self::cpu::Flag;
use self::cpu::{flag_of, with_flag};
use self::instr::word_of;
use crate::instructions::{self, Cond, Instruction, Mem, Operation, ADD, B3, DEC, INC, LD, R16, R8, T3};
use crate::memory::Memory;
use crate::utils::bit;

verus! {

/// Why the processor could not go on.
#[derive(Debug, Clone, Copy, PartialEq, Eq, Structural)]
pub enum Error {
    Unknown,
}

/// An 8-bit register whose increment and decrement must not wrap.
#[derive(Debug, Clone, Copy, PartialEq, Eq, Structural)]
pub struct Register(pub u8);

impl Register {
    pub fn new() -> (r: Register)
        ensures
            r.0 == 0,
    {
        Register(0)
    }

    pub fn val(&self) -> (r: u8)
        ensures
            r == self.0,
    {
        self.0
    }

    pub fn write(&mut self, v: u8)
        ensures
            final(self).0 == v,
    {
        self.0 = v
    }

    /// Adds one and returns the new value; the register must be below 255.
    pub fn inc(&mut self) -> (r: u8)
        requires
            old(self).0 < 255,
        ensures
            r == old(self).0 + 1,
            final(self).0 == r,
    {
        self.0 += 1;
        self.0
    }

    /// Subtracts one and returns the new value; the register must not be 0.
    pub fn dec(&mut self) -> (r: u8)
        requires
            old(self).0 > 0,
        ensures
            r == old(self).0 - 1,
            final(self).0 == r,
    {
        self.0 -= 1;
        self.0
    }

    pub fn bit(&self, n: u8) -> (r: u8)
        requires
            n < 8,
        ensures
            r == bit::bit_of(self.0, n),
    {
        bit::get(self.0, n)
    }

    pub fn bit_set(&mut self, n: u8)
        requires
            n < 8,
        ensures
            final(self).0 == old(self).0 | (1u8 << n),
    {
        bit::set(&mut self.0, n);
    }

    pub fn bit_reset(&mut self, n: u8)
        requires
            n < 8,
        ensures
            final(self).0 == old(self).0 & !(1u8 << n),
    {
        bit::reset(&mut self.0, n);
    }
}

impl From<u8> for Register {
    fn from(value: u8) -> (r: Register) {
        Register(value)
    }
}

impl vstd::std_specs::convert::FromSpecImpl<u8> for Register {
    open spec fn obeys_from_spec() -> bool {
        true
    }

    open spec fn from_spec(v: u8) -> Register {
        Register(v)
    }
}

/// A register pair read as one word, high register first.
#[derive(Debug, Clone, Copy, PartialEq, Eq, Structural)]
pub struct Word {
    pub high: Register,
    pub low: Register,
}

impl Word {
    pub open spec fn word(self) -> u16 {
        word_of(self.high.0, self.low.0)
    }

    pub fn new(high: Register, low: Register) -> (w: Word)
        ensures
            w.high == high,
            w.low == low,
    {
        Word { high, low }
    }

    pub fn val(&self) -> (r: u16)
        ensures
            r == self.word(),
    {
        proof {
            bit::lemma_join_bytes(self.high.0, self.low.0, 0);
        }
        ((self.high.0 as u16) << 8) | (self.low.0 as u16)
    }

    pub fn write(&mut self, w: u16)
        ensures
            final(self).high.0 == w / 256,
            final(self).low.0 == w % 256,
            final(self).word() == w,
    {
        proof {
            bit::lemma_word_fields(w);
        }
        self.low.0 = (w & 0xFF) as u8;
        self.high.0 = ((w & 0xFF00) >> 8) as u8;
    }

    /// Adds one to the pair and returns the new value; the pair must be below 0xFFFF.
    pub fn inc(&mut self) -> (r: u16)
        requires
            old(self).word() < 0xFFFF,
        ensures
            r == old(self).word() + 1,
            final(self).word() == r,
            final(self).high.0 == r / 256,
            final(self).low.0 == r % 256,
    {
        let v = self.val();
        self.write(v + 1);
        self.val()
    }

    /// Subtracts one from the pair and returns the new value; the pair must not be 0.
    pub fn dec(&mut self) -> (r: u16)
        requires
            old(self).word() > 0,
        ensures
            r == old(self).word() - 1,
            final(self).word() == r,
            final(self).high.0 == r / 256,
            final(self).low.0 == r % 256,
    {
        let v = self.val();
        self.write(v - 1);
        self.val()
    }
}

/// The processor as a value.
pub ghost struct Regs {
    pub a: u8,
    pub f: u8,
    pub b: u8,
    pub c: u8,
    pub d: u8,
    pub e: u8,
    pub h: u8,
    pub l: u8,
    pub sp: u16,
    pub pc: u16,
    pub mem: Memory,
    pub stop: bool,
    pub halt: bool,
    pub ie: bool,
    pub ime: bool,
}

/// A processor that runs a decoded instruction in one go against the memory it
/// owns.
pub struct CPU {
    pub a: Register,
    pub f: Register,
    pub b: Register,
    pub c: Register,
    pub d: Register,
    pub e: Register,
    pub h: Register,
    pub l: Register,
    pub sp: u16,
    pub pc: u16,
    pub mem: Memory,
    pub stop: bool,
    pub halt: bool,
    pub ie: bool,
    pub ime: bool,
}

impl View for CPU {
    type V = Regs;

    open spec fn view(&self) -> Regs {
        Regs {
            a: self.a.0,
            f: self.f.0,
            b: self.b.0,
            c: self.c.0,
            d: self.d.0,
            e: self.e.0,
            h: self.h.0,
            l: self.l.0,
            sp: self.sp,
            pc: self.pc,
            mem: self.mem,
            stop: self.stop,
            halt: self.halt,
            ie: self.ie,
            ime: self.ime,
        }
    }
}

/// HL.
pub open spec fn hl_of(s: Regs) -> u16 {
    word_of(s.h, s.l)
}

/// The value of an 8-bit operand that is a register or [hl].
pub open spec fn r8_val(s: Regs, r: R8) -> u8 {
    match r {
        R8::A => s.a,
        R8::B => s.b,
        R8::C => s.c,
        R8::D => s.d,
        R8::E => s.e,
        R8::H => s.h,
        R8::L => s.l,
        R8::HL => s.mem.byte_at(hl_of(s)),
        R8::N8 => 0,
    }
}

/// The state with an 8-bit operand written: a register, or memory at HL.
pub open spec fn r8_set(s: Regs, r: R8, v: u8) -> Regs {
    match r {
        R8::A => Regs { a: v, ..s },
        R8::B => Regs { b: v, ..s },
        R8::C => Regs { c: v, ..s },
        R8::D => Regs { d: v, ..s },
        R8::E => Regs { e: v, ..s },
        R8::H => Regs { h: v, ..s },
        R8::L => Regs { l: v, ..s },
        R8::HL => Regs { mem: s.mem.stored(hl_of(s), v), ..s },
        R8::N8 => s,
    }
}

/// The value of a 16-bit operand other than the immediate.
pub open spec fn r16_val(s: Regs, r: R16) -> u16 {
    match r {
        R16::BC => word_of(s.b, s.c),
        R16::DE => word_of(s.d, s.e),
        R16::HL => word_of(s.h, s.l),
        R16::AF => word_of(s.a, s.f),
        R16::SP => s.sp,
        R16::PC => s.pc,
        R16::N16 => 0,
    }
}

/// The operands that `ld_r16` writes.
pub open spec fn r16_writable(r: R16) -> bool {
    r == R16::HL || r == R16::BC || r == R16::DE || r == R16::SP || r == R16::AF
}

/// The state with a 16-bit operand written.
pub open spec fn r16_set(s: Regs, r: R16, v: u16) -> Regs {
    let hi = (v / 256) as u8;
    let lo = (v % 256) as u8;
    match r {
        R16::HL => Regs { h: hi, l: lo, ..s },
        R16::BC => Regs { b: hi, c: lo, ..s },
        R16::DE => Regs { d: hi, e: lo, ..s },
        R16::AF => Regs { a: hi, f: lo, ..s },
        R16::SP => Regs { sp: v, ..s },
        R16::PC => Regs { pc: v, ..s },
        R16::N16 => s,
    }
}

/// The state after one fetch: PC advanced.
pub open spec fn step_pc(s: Regs, n: int) -> Regs {
    Regs { pc: (s.pc + n) as u16, ..s }
}

/// Reading an 8-bit operand: the immediate is fetched at PC.
pub open spec fn read_r8(s: Regs, r: R8) -> (u8, Regs) {
    if r == R8::N8 {
        (s.mem.byte_at(s.pc), step_pc(s, 1))
    } else {
        (r8_val(s, r), s)
    }
}

/// Reading a 16-bit operand: the immediate is fetched at PC, low byte first.
pub open spec fn read_r16(s: Regs, r: R16) -> (u16, Regs) {
    if r == R16::N16 {
        (word_of(s.mem.byte_at((s.pc + 1) as u16), s.mem.byte_at(s.pc)), step_pc(s, 2))
    } else {
        (r16_val(s, r), s)
    }
}

/// An operand can be read: a fetch must not run PC past 0xFFFF.
pub open spec fn read_r8_ok(s: Regs, r: R8) -> bool {
    r != R8::N8 || s.pc < 0xFFFF
}

pub open spec fn read_r16_ok(s: Regs, r: R16) -> bool {
    r != R16::N16 || s.pc < 0xFFFE
}

/// The flags with `fl` set when `cond` holds.
pub open spec fn set_if(f: u8, fl: Flag, cond: bool) -> u8 {
    if cond {
        with_flag(f, fl, true)
    } else {
        f
    }
}

/// The flags with `fl` reset when `cond` holds.
pub open spec fn reset_if(f: u8, fl: Flag, cond: bool) -> u8 {
    if cond {
        with_flag(f, fl, false)
    } else {
        f
    }
}

/// The state with flags `f`.
pub open spec fn with_flags(s: Regs, f: u8) -> Regs {
    Regs { f, ..s }
}

impl CPU {
    /// A processor with every register 0 and SP at the top of memory.
    pub fn new(mem: Memory) -> (cpu: CPU)
        ensures
            cpu@ == (Regs {
                a: 0,
                f: 0,
                b: 0,
                c: 0,
                d: 0,
                e: 0,
                h: 0,
                l: 0,
                sp: 0xFFFE,
                pc: 0,
                mem,
                stop: false,
                halt: false,
                ie: false,
                ime: false,
            }),
    {
        CPU {
            a: Register::new(),
            f: Register::new(),
            b: Register::new(),
            c: Register::new(),
            d: Register::new(),
            e: Register::new(),
            h: Register::new(),
            l: Register::new(),
            sp: 0xFFFE,
            pc: 0,
            mem,
            stop: false,
            halt: false,
            ie: false,
            ime: false,
        }
    }

    pub fn pc(&self) -> (r: u16)
        ensures
            r == self@.pc,
    {
        self.pc
    }

    pub fn sp(&self) -> (r: u16)
        ensures
            r == self@.sp,
    {
        self.sp
    }

    /// Decodes an opcode.
    pub fn decode(&self, opcode: u8) -> (r: Result<Instruction, instructions::Error>)
        ensures
            r == instructions::decode_spec(opcode),
    {
        instructions::decode(opcode)
    }

    pub fn set_flag(&mut self, f: Flag)
        ensures
            final(self)@ == with_flags(old(self)@, with_flag(old(self)@.f, f, true)),
    {
        match f {
            Flag::Z => self.f.bit_set(7),
            Flag::N => self.f.bit_set(6),
            Flag::H => self.f.bit_set(5),
            Flag::C => self.f.bit_set(4),
        }
    }

    pub fn reset_flag(&mut self, f: Flag)
        ensures
            final(self)@ == with_flags(old(self)@, with_flag(old(self)@.f, f, false)),
    {
        match f {
            Flag::Z => self.f.bit_reset(7),
            Flag::N => self.f.bit_reset(6),
            Flag::H => self.f.bit_reset(5),
            Flag::C => self.f.bit_reset(4),
        }
    }

    /// Sets the flag when bit 0 of `v` is 1 and resets it otherwise.
    pub fn set_flag_from_val(&mut self, f: Flag, v: u8)
        ensures
            final(self)@ == with_flags(old(self)@, with_flag(old(self)@.f, f, v % 2 == 1)),
    {
        assert((v & 1 == 1) == (v % 2 == 1)) by {
            bit::lemma_byte_fields(v);
        }
        if (v & 1) == 1 {
            self.set_flag(f);
        } else {
            self.reset_flag(f);
        }
    }

    pub fn invert_flag(&mut self, f: Flag)
        ensures
            final(self)@ == with_flags(
                old(self)@,
                with_flag(old(self)@.f, f, !flag_of(old(self)@.f, f)),
            ),
    {
        if self.flag(f) {
            self.reset_flag(f);
        } else {
            self.set_flag(f);
        }
    }

    pub fn flag(&self, f: Flag) -> (r: bool)
        ensures
            r == flag_of(self@.f, f),
    {
        let b = match f {
            Flag::Z => self.f.bit(7),
            Flag::N => self.f.bit(6),
            Flag::H => self.f.bit(5),
            Flag::C => self.f.bit(4),
        };
        b == 1
    }

    pub fn cf(&self) -> (r: bool)
        ensures
            r == flag_of(self@.f, Flag::C),
    {
        self.flag(Flag::C)
    }

    pub fn hf(&self) -> (r: bool)
        ensures
            r == flag_of(self@.f, Flag::H),
    {
        self.flag(Flag::H)
    }

    pub fn nf(&self) -> (r: bool)
        ensures
            r == flag_of(self@.f, Flag::N),
    {
        self.flag(Flag::N)
    }

    pub fn zf(&self) -> (r: bool)
        ensures
            r == flag_of(self@.f, Flag::Z),
    {
        self.flag(Flag::Z)
    }

    fn clear_flags(&mut self)
        ensures
            final(self)@ == with_flags(
                old(self)@,
                with_flag(
                    with_flag(with_flag(with_flag(old(self)@.f, Flag::Z, false), Flag::N, false), Flag::H, false),
                    Flag::C,
                    false,
                ),
            ),
    {
        self.reset_flag(Flag::Z);
        self.reset_flag(Flag::N);
        self.reset_flag(Flag::H);
        self.reset_flag(Flag::C);
    }

    pub fn af(&self) -> (w: Word)
        ensures
            w.word() == word_of(self@.a, self@.f),
    {
        Word::new(self.a, self.f)
    }

    pub fn hl(&self) -> (w: Word)
        ensures
            w.word() == word_of(self@.h, self@.l),
    {
        Word::new(self.h, self.l)
    }

    pub fn bc(&self) -> (w: Word)
        ensures
            w.word() == word_of(self@.b, self@.c),
    {
        Word::new(self.b, self.c)
    }

    pub fn de(&self) -> (w: Word)
        ensures
            w.word() == word_of(self@.d, self@.e),
    {
        Word::new(self.d, self.e)
    }

    /// Reads the byte at PC and advances PC, which must not be 0xFFFF.
    pub fn fetch(&mut self) -> (r: u8)
        requires
            old(self)@.pc < 0xFFFF,
        ensures
            r == old(self)@.mem.byte_at(old(self)@.pc),
            final(self)@ == step_pc(old(self)@, 1),
    {
        let pc = self.pc;
        self.pc += 1;
        self.mem.read(pc)
    }

    /// Reads the little-endian word at PC, advancing PC twice.
    pub fn fetch_word(&mut self) -> (r: u16)
        requires
            old(self)@.pc < 0xFFFE,
        ensures
            (r, final(self)@) == read_r16(old(self)@, R16::N16),
    {
        let low = self.fetch() as u16;
        let high = self.fetch() as u16;
        proof {
            bit::lemma_join_bytes(high as u8, low as u8, 0);
        }
        (high << 8) | low
    }

    /// Writes a 16-bit operand: a pair, SP or AF.
    pub fn ld_r16(&mut self, r: R16, v: u16)
        requires
            r16_writable(r),
        ensures
            final(self)@ == r16_set(old(self)@, r, v),
    {
        match r {
            R16::HL => {
                let mut w = self.hl();
                w.write(v);
                self.h = w.high;
                self.l = w.low;
            },
            R16::BC => {
                let mut w = self.bc();
                w.write(v);
                self.b = w.high;
                self.c = w.low;
            },
            R16::DE => {
                let mut w = self.de();
                w.write(v);
                self.d = w.high;
                self.e = w.low;
            },
            R16::SP => self.sp = v,
            _ => {
                let mut w = self.af();
                w.write(v);
                self.a = w.high;
                self.f = w.low;
            },
        }
    }

    /// Writes an 8-bit operand: a register, or memory at HL.
    pub fn ld_r8(&mut self, r: R8, v: u8)
        requires
            r != R8::N8,
        ensures
            final(self)@ == r8_set(old(self)@, r, v),
    {
        match r {
            R8::A => self.a.write(v),
            R8::B => self.b.write(v),
            R8::C => self.c.write(v),
            R8::D => self.d.write(v),
            R8::E => self.e.write(v),
            R8::H => self.h.write(v),
            R8::L => self.l.write(v),
            _ => {
                let addr = self.hl().val();
                self.mem.write(addr, v);
            },
        }
    }

    /// Reads an 8-bit operand; the immediate is fetched.
    pub fn src_r8(&mut self, r: R8) -> (v: u8)
        requires
            read_r8_ok(old(self)@, r),
        ensures
            (v, final(self)@) == read_r8(old(self)@, r),
    {
        match r {
            R8::N8 => self.fetch(),
            R8::A => self.a.val(),
            R8::B => self.b.val(),
            R8::C => self.c.val(),
            R8::D => self.d.val(),
            R8::E => self.e.val(),
            R8::H => self.h.val(),
            R8::L => self.l.val(),
            R8::HL => {
                let addr = self.hl().val();
                return self.mem.read(addr);
            },
        }
    }

    /// Reads a 16-bit operand; the immediate is fetched.
    pub fn src_r16(&mut self, r: R16) -> (v: u16)
        requires
            read_r16_ok(old(self)@, r),
        ensures
            (v, final(self)@) == read_r16(old(self)@, r),
    {
        match r {
            R16::HL => self.hl().val(),
            R16::BC => self.bc().val(),
            R16::DE => self.de().val(),
            R16::PC => self.pc,
            R16::SP => self.sp,
            R16::AF => self.af().val(),
            R16::N16 => self.fetch_word(),
        }
    }
}

/// Whether condition `c` holds for the flags `f`.
pub open spec fn cond_ok(f: u8, c: Cond) -> bool {
    match c {
        Cond::Z => flag_of(f, Flag::Z),
        Cond::NZ => !flag_of(f, Flag::Z),
        Cond::C => flag_of(f, Flag::C),
        Cond::NC => !flag_of(f, Flag::C),
    }
}

/// The state after pushing `v`: SP down by two and `v` stored there,
/// little-endian.
pub open spec fn push_spec(s: Regs, v: u16) -> Regs {
    let sp = (s.sp - 2) as u16;
    Regs {
        sp,
        mem: s.mem.stored(sp, (v % 256) as u8).stored((sp + 1) as u16, (v / 256) as u8),
        ..s
    }
}

/// The little-endian word at `addr`.
pub open spec fn word_at(m: Memory, addr: u16) -> u16 {
    word_of(m.byte_at((addr + 1) as u16), m.byte_at(addr))
}

/// The address that a memory operand names, and the state after working it
/// out (an immediate is fetched; HL+ and HL- step HL).
pub open spec fn mem_addr_spec(s: Regs, m: Mem) -> (u16, Regs) {
    let hl = hl_of(s);
    match m {
        Mem::HL => (hl, s),
        Mem::BC => (word_of(s.b, s.c), s),
        Mem::DE => (word_of(s.d, s.e), s),
        Mem::SP => (word_of(s.d, s.e), s),
        Mem::SPN8 => ((s.sp + s.mem.byte_at(s.pc)) as u16, step_pc(s, 1)),
        Mem::N16 => read_r16(s, R16::N16),
        Mem::N8 => ((s.mem.byte_at(s.pc) + 0xFF00) as u16, step_pc(s, 1)),
        Mem::C => ((s.c + 0xFF00) as u16, s),
        Mem::HLI => (hl, r16_set(s, R16::HL, (hl + 1) as u16)),
        Mem::HLD => (hl, r16_set(s, R16::HL, (hl - 1) as u16)),
    }
}

/// The memory operands that can be worked out without overflow.
pub open spec fn mem_addr_ok(s: Regs, m: Mem) -> bool {
    match m {
        Mem::SPN8 => s.pc < 0xFFFF && s.sp + s.mem.byte_at(s.pc) <= 0xFFFF,
        Mem::N16 => s.pc < 0xFFFE,
        Mem::N8 => s.pc < 0xFFFF,
        Mem::HLI => hl_of(s) < 0xFFFF,
        Mem::HLD => hl_of(s) > 0,
        _ => true,
    }
}

/// Whether a load goes through.
pub open spec fn ld_ok(s: Regs, op: LD) -> bool {
    match op {
        LD::R8(a, b) => read_r8_ok(s, b) && a != R8::N8,
        LD::R16(a, b) => read_r16_ok(s, b) && r16_writable(a),
        LD::MemR8(m, r) => mem_addr_ok(s, m) && read_r8_ok(mem_addr_spec(s, m).1, r),
        LD::MemR16(m, r) => mem_addr_ok(s, m) && read_r16_ok(mem_addr_spec(s, m).1, r)
            && mem_addr_spec(s, m).0 < 0xFFFF,
        LD::R8Mem(r, m) => mem_addr_ok(s, m) && r != R8::N8,
    }
}

/// The state after a load.
pub open spec fn ld_spec(s: Regs, op: LD) -> Regs {
    match op {
        LD::R8(a, b) => r8_set(read_r8(s, b).1, a, read_r8(s, b).0),
        LD::R16(a, b) => r16_set(read_r16(s, b).1, a, read_r16(s, b).0),
        LD::MemR8(m, r) => {
            let (addr, s1) = mem_addr_spec(s, m);
            let (v, s2) = read_r8(s1, r);
            Regs { mem: s2.mem.stored(addr, v), ..s2 }
        },
        LD::MemR16(m, r) => {
            let (addr, s1) = mem_addr_spec(s, m);
            let (v, s2) = read_r16(s1, r);
            Regs {
                mem: s2.mem.stored(addr, (v % 256) as u8).stored((addr + 1) as u16, (v / 256) as u8),
                ..s2
            }
        },
        LD::R8Mem(r, m) => {
            let (addr, s1) = mem_addr_spec(s, m);
            r8_set(s1, r, s1.mem.byte_at(addr))
        },
    }
}

/// Both bits `n` are set: adding them carries out of position `n`.
pub open spec fn carries(a: u8, b: u8, n: u8) -> bool {
    bit::bit_of(a, n) == 1 && bit::bit_of(b, n) == 1
}

pub open spec fn carries16(a: u16, b: u16, n: u8) -> bool {
    bit::bit_of_u16(a, n) == 1 && bit::bit_of_u16(b, n) == 1
}

/// The result of `check_borrow(a, b, n)` for `n` below 8.
pub open spec fn borrows(a: u8, b: u8, n: u8) -> bool {
    let am = a & bit::fill_mask(n);
    let bm = b & bit::fill_mask(n);
    bit::bit_of(am, n) == 1 && bit::bit_of((am - bm) as u8, n) != 1
}

/// The masked operands that `check_borrow(a, b, n)` subtracts do not underflow.
pub open spec fn borrow_ok(a: u8, b: u8, n: u8) -> bool {
    a & bit::fill_mask(n) >= b & bit::fill_mask(n)
}

/// The operands that `reg` names.
pub open spec fn is_reg(r: R8) -> bool {
    r != R8::HL && r != R8::N8
}

/// The flags after a rotation that shifted out `carry` and produced `result`:
/// Z reset when rotating A or on a zero result (kept otherwise), N and H reset.
pub open spec fn rot_flags(f: u8, r: R8, carry: bool, result: u8) -> u8 {
    let f1 = with_flag(f, Flag::C, carry);
    let f2 = reset_if(f1, Flag::Z, r == R8::A || result == 0);
    with_flag(with_flag(f2, Flag::N, false), Flag::H, false)
}

/// The flags after a shift that shifted out `carry` and produced `result`:
/// Z reset on a zero result, N and H reset.
pub open spec fn shift_flags(f: u8, carry: bool, result: u8) -> u8 {
    let f1 = with_flag(f, Flag::C, carry);
    let f2 = reset_if(f1, Flag::Z, result == 0);
    with_flag(with_flag(f2, Flag::N, false), Flag::H, false)
}

impl CPU {
    /// Whether condition `c` holds.
    pub fn cc(&self, c: Cond) -> (r: bool)
        ensures
            r == cond_ok(self@.f, c),
    {
        match c {
            Cond::Z => self.flag(Flag::Z),
            Cond::NZ => !self.flag(Flag::Z),
            Cond::C => self.flag(Flag::C),
            Cond::NC => !self.flag(Flag::C),
        }
    }

    /// Jumps to a 16-bit operand.
    fn jp(&mut self, r: R16)
        requires
            read_r16_ok(old(self)@, r),
        ensures
            final(self)@ == read_r16(old(self)@, r).1.with_pc(read_r16(old(self)@, r).0),
    {
        let addr = self.src_r16(r);
        self.pc = addr;
    }

    fn jp_cond(&mut self, c: Cond, r: R16)
        requires
            read_r16_ok(old(self)@, r),
        ensures
            final(self)@ == if cond_ok(old(self)@.f, c) {
                read_r16(old(self)@, r).1.with_pc(read_r16(old(self)@, r).0)
            } else {
                old(self)@
            },
    {
        if self.cc(c) {
            self.jp(r)
        }
    }

    /// Moves PC forward by `b`; the sum must fit.
    pub fn jr(&mut self, b: u8)
        requires
            old(self)@.pc + b <= 0xFFFF,
        ensures
            final(self)@ == step_pc(old(self)@, b as int),
    {
        self.pc += b as u16;
    }

    fn jr_cond(&mut self, c: Cond, b: u8)
        requires
            old(self)@.pc + b <= 0xFFFF,
        ensures
            final(self)@ == if cond_ok(old(self)@.f, c) {
                step_pc(old(self)@, b as int)
            } else {
                old(self)@
            },
    {
        if self.cc(c) {
            self.jr(b);
        }
    }

    /// Moves PC forward by `w`; the sum must fit.
    pub fn jr_word(&mut self, w: u16)
        requires
            old(self)@.pc + w <= 0xFFFF,
        ensures
            final(self)@ == step_pc(old(self)@, w as int),
    {
        self.pc += w;
    }

    /// Calls the fetched address: the return address is pushed.
    fn call(&mut self)
        requires
            old(self)@.pc < 0xFFFE,
            old(self)@.sp >= 2,
        ensures
            final(self)@ == push_spec(step_pc(old(self)@, 2), (old(self)@.pc + 2) as u16).with_pc(
                read_r16(old(self)@, R16::N16).0,
            ),
    {
        let n16 = self.fetch_word();
        let pc = self.pc;
        self.push(pc);
        self.pc = n16;
    }

    fn call_cond(&mut self, c: Cond)
        requires
            old(self)@.pc < 0xFFFE,
            old(self)@.sp >= 2,
        ensures
            final(self)@ == if cond_ok(old(self)@.f, c) {
                push_spec(step_pc(old(self)@, 2), (old(self)@.pc + 2) as u16).with_pc(
                    read_r16(old(self)@, R16::N16).0,
                )
            } else {
                old(self)@
            },
    {
        if self.cc(c) {
            self.call();
        }
    }

    /// Pushes PC and jumps to the restart target.
    fn rst(&mut self, t: T3)
        requires
            old(self)@.sp >= 2,
        ensures
            final(self)@ == push_spec(old(self)@, old(self)@.pc).with_pc(t.0 as u16),
    {
        let pc = self.pc;
        let val = u8::from(t);
        self.push(pc);
        self.pc = val as u16;
    }

    /// Pops a word into a 16-bit operand; for AF the low nibble of F is cleared.
    pub fn pop(&mut self, r: R16)
        requires
            old(self)@.sp <= 0xFFFD,
            r16_writable(r),
        ensures
            final(self)@ == r16_set(
                Regs { sp: (old(self)@.sp + 2) as u16, ..old(self)@ },
                r,
                if r == R16::AF {
                    word_at(old(self)@.mem, old(self)@.sp) & 0xFFF0
                } else {
                    word_at(old(self)@.mem, old(self)@.sp)
                },
            ),
    {
        let sp = self.sp;
        self.sp += 2;
        let mut val = self.mem.read_word(sp);
        if r == R16::AF {
            val &= 0xFFF0;
        }
        self.ld_r16(r, val)
    }

    /// Pushes a word: SP moves down by two and the word is stored there.
    pub fn push(&mut self, v: u16)
        requires
            old(self)@.sp >= 2,
        ensures
            final(self)@ == push_spec(old(self)@, v),
    {
        self.sp -= 2;
        let sp = self.sp;
        self.mem.write_word(sp, v);
    }

    /// Pushes a 16-bit operand.
    fn push_r16(&mut self, r: R16)
        requires
            read_r16_ok(old(self)@, r),
            old(self)@.sp >= 2,
        ensures
            final(self)@ == push_spec(read_r16(old(self)@, r).1, read_r16(old(self)@, r).0),
    {
        let val = self.src_r16(r);
        self.push(val);
    }

    /// Works out the address of a memory operand.
    fn mem_addr(&mut self, m: Mem) -> (r: u16)
        requires
            mem_addr_ok(old(self)@, m),
        ensures
            (r, final(self)@) == mem_addr_spec(old(self)@, m),
    {
        match m {
            Mem::HL => self.hl().val(),
            Mem::BC => self.bc().val(),
            Mem::DE => self.de().val(),
            Mem::SP => self.de().val(),
            Mem::SPN8 => {
                let n = self.fetch() as u16;
                self.sp + n
            },
            Mem::N16 => self.fetch_word(),
            Mem::N8 => (self.fetch() as u16) + 0xFF00,
            Mem::C => (self.c.val() as u16) + 0xFF00,
            Mem::HLI => {
                let addr = self.hl().val();
                let mut w = self.hl();
                w.inc();
                self.h = w.high;
                self.l = w.low;
                addr
            },
            Mem::HLD => {
                let addr = self.hl().val();
                let mut w = self.hl();
                w.dec();
                self.h = w.high;
                self.l = w.low;
                addr
            },
        }
    }

    /// Runs a load.
    fn ld(&mut self, op: LD) -> (r: Result<(), ()>)
        requires
            ld_ok(old(self)@, op),
        ensures
            r is Ok,
            final(self)@ == ld_spec(old(self)@, op),
    {
        match op {
            LD::R8(a, b) => {
                let v = self.src_r8(b);
                self.ld_r8(a, v);
            },
            LD::R16(a, b) => {
                let v = self.src_r16(b);
                self.ld_r16(a, v);
            },
            LD::MemR8(m, r) => {
                let addr = self.mem_addr(m);
                let v = self.src_r8(r);
                self.mem.write(addr, v);
            },
            LD::MemR16(m, r) => {
                let addr = self.mem_addr(m);
                let v = self.src_r16(r);
                self.mem.write_word(addr, v);
            },
            LD::R8Mem(r, m) => {
                let addr = self.mem_addr(m);
                let v = self.mem.read(addr);
                self.ld_r8(r, v);
            },
        }
        Ok(())
    }
}

impl Regs {
    /// The state with PC at `pc`.
    pub open spec fn with_pc(self, pc: u16) -> Regs {
        Regs { pc, ..self }
    }
}

/// The value of a register operand of `reg`.
pub open spec fn reg_val(s: Regs, r: R8) -> u8 {
    r8_val(s, r)
}

/// A 16-bit operand can be stepped: a pair, SP or PC that does not wrap.
pub open spec fn r16_inc_ok(s: Regs, r: R16) -> bool {
    match r {
        R16::DE | R16::BC | R16::HL | R16::SP | R16::PC => r16_val(s, r) < 0xFFFF,
        _ => false,
    }
}

pub open spec fn r16_dec_ok(s: Regs, r: R16) -> bool {
    match r {
        R16::DE | R16::BC | R16::HL => r16_val(s, r) > 0,
        R16::SP | R16::PC => r16_val(s, r) < 0xFFFF,
        _ => false,
    }
}

/// What `dec_r16` writes: one less for a pair, and, as the code has it, one
/// more for SP and PC.
pub open spec fn r16_dec_val(s: Regs, r: R16) -> u16 {
    match r {
        R16::SP | R16::PC => (r16_val(s, r) + 1) as u16,
        _ => (r16_val(s, r) - 1) as u16,
    }
}

/// The adjustment that `daa` makes, and whether it sets C.
pub open spec fn daa_adj(s: Regs) -> (int, bool) {
    let a = s.a;
    if flag_of(s.f, Flag::N) {
        ((if flag_of(s.f, Flag::H) { 6int } else { 0int }) + (if flag_of(s.f, Flag::C) { 0x60int } else { 0int }), false)
    } else {
        let lo = flag_of(s.f, Flag::H) || a % 16 > 9;
        let hi = flag_of(s.f, Flag::C) || a > 0x99;
        ((if lo { 6int } else { 0int }) + (if hi { 0x60int } else { 0int }), hi)
    }
}

/// The adjusted A must stay in a byte.
pub open spec fn daa_ok(s: Regs) -> bool {
    if flag_of(s.f, Flag::N) {
        s.a >= daa_adj(s).0
    } else {
        s.a + daa_adj(s).0 <= 255
    }
}

impl CPU {
    /// Loads HL with SP plus the fetched byte; Z and N reset, H and C set on a
    /// carry out of bit 3 and bit 7.
    fn ld_hl_sp_n(&mut self)
        requires
            old(self)@.pc < 0xFFFF,
            old(self)@.sp + old(self)@.mem.byte_at(old(self)@.pc) <= 0xFFFF,
        ensures
            ({
                let s = old(self)@;
                let e = s.mem.byte_at(s.pc) as u16;
                let f1 = with_flag(with_flag(s.f, Flag::Z, false), Flag::N, false);
                let f2 = set_if(set_if(f1, Flag::H, carries16(s.sp, e, 3)), Flag::C, carries16(s.sp, e, 7));
                final(self)@ == with_flags(r16_set(step_pc(s, 1), R16::HL, (s.sp + e) as u16), f2)
            }),
    {
        let sp = self.sp;
        let e = self.fetch() as u16;
        let result = sp + e;
        let mut w = self.hl();
        w.write(result);
        self.h = w.high;
        self.l = w.low;
        self.reset_flag(Flag::Z);
        self.reset_flag(Flag::N);
        if bit::check_overflow_word(sp, e, 3) {
            self.set_flag(Flag::H);
        }
        if bit::check_overflow_word(sp, e, 7) {
            self.set_flag(Flag::C);
        }
    }

    fn inc(&mut self, i: INC)
        requires
            match i {
                INC::R8(r) => r != R8::N8 && r8_val(old(self)@, r) < 255,
                INC::R16(r) => r16_inc_ok(old(self)@, r),
            },
        ensures
            final(self)@ == match i {
                INC::R8(r) => inc_r8_spec(old(self)@, r),
                INC::R16(r) => r16_set(old(self)@, r, (r16_val(old(self)@, r) + 1) as u16),
            },
    {
        match i {
            INC::R8(r) => self.inc_r8(r),
            INC::R16(r) => self.inc_r16(r),
        }
    }

    /// Increments an 8-bit register or [hl], which must be below 255.
    fn inc_r8(&mut self, r: R8)
        requires
            r != R8::N8,
            r8_val(old(self)@, r) < 255,
        ensures
            final(self)@ == inc_r8_spec(old(self)@, r),
    {
        let val = self.src_r8(r);
        let result = match r {
            R8::A => self.a.inc(),
            R8::B => self.b.inc(),
            R8::C => self.c.inc(),
            R8::D => self.d.inc(),
            R8::E => self.e.inc(),
            R8::H => self.h.inc(),
            R8::L => self.l.inc(),
            _ => {
                let addr = self.hl().val();
                self.mem.inc(addr)
            },
        };
        if result == 0 {
            self.reset_flag(Flag::Z);
        }
        self.reset_flag(Flag::N);
        if bit::check_overflow(val, 1, 3) {
            self.set_flag(Flag::H);
        }
    }

    /// Increments a register pair, SP or PC, which must be below 0xFFFF.
    fn inc_r16(&mut self, r: R16)
        requires
            r16_inc_ok(old(self)@, r),
        ensures
            final(self)@ == r16_set(old(self)@, r, (r16_val(old(self)@, r) + 1) as u16),
    {
        match r {
            R16::DE => {
                let mut w = self.de();
                w.inc();
                self.d = w.high;
                self.e = w.low;
            },
            R16::BC => {
                let mut w = self.bc();
                w.inc();
                self.b = w.high;
                self.c = w.low;
            },
            R16::HL => {
                let mut w = self.hl();
                w.inc();
                self.h = w.high;
                self.l = w.low;
            },
            R16::SP => {
                self.sp += 1;
            },
            _ => {
                self.pc += 1;
            },
        }
    }

    fn dec(&mut self, d: DEC)
        requires
            match d {
                DEC::R8(r) => r != R8::N8 && r8_val(old(self)@, r) > 0,
                DEC::R16(r) => r16_dec_ok(old(self)@, r),
            },
        ensures
            final(self)@ == match d {
                DEC::R8(r) => dec_r8_spec(old(self)@, r),
                DEC::R16(r) => r16_set(old(self)@, r, r16_dec_val(old(self)@, r)),
            },
    {
        match d {
            DEC::R16(r) => self.dec_r16(r),
            DEC::R8(r) => self.dec_r8(r),
        }
    }

    /// Decrements an 8-bit register or [hl], which must not be 0.
    fn dec_r8(&mut self, r: R8)
        requires
            r != R8::N8,
            r8_val(old(self)@, r) > 0,
        ensures
            final(self)@ == dec_r8_spec(old(self)@, r),
    {
        let val = self.src_r8(r);
        let result = match r {
            R8::A => self.a.dec(),
            R8::B => self.b.dec(),
            R8::C => self.c.dec(),
            R8::D => self.d.dec(),
            R8::E => self.e.dec(),
            R8::H => self.h.dec(),
            R8::L => self.l.dec(),
            _ => {
                let addr = self.hl().val();
                self.mem.dec(addr)
            },
        };
        if result == 0 {
            self.set_flag(Flag::Z);
        }
        proof {
            assert(borrow_ok(val, 1, 4)) by {
                assert(1u8 & bit::fill_mask(4) == 0) by (bit_vector);
            }
        }
        if bit::check_borrow(val, 1, 4) {
            self.set_flag(Flag::H);
        }
        self.set_flag(Flag::N);
    }

    /// Steps a register pair down, and SP or PC up, as the code has it.
    fn dec_r16(&mut self, r: R16)
        requires
            r16_dec_ok(old(self)@, r),
        ensures
            final(self)@ == r16_set(old(self)@, r, r16_dec_val(old(self)@, r)),
    {
        match r {
            R16::DE | R16::BC | R16::HL => {
                let mut w = self.reg_word(r);
                w.dec();
                match r {
                    R16::DE => {
                        self.d = w.high;
                        self.e = w.low;
                    },
                    R16::BC => {
                        self.b = w.high;
                        self.c = w.low;
                    },
                    _ => {
                        self.h = w.high;
                        self.l = w.low;
                    },
                }
            },
            R16::SP => self.sp += 1,
            _ => self.pc += 1,
        }
    }

    /// A copy of an 8-bit register.
    fn reg(&self, r: R8) -> (v: Register)
        requires
            is_reg(r),
        ensures
            v.0 == reg_val(self@, r),
    {
        match r {
            R8::A => self.a,
            R8::B => self.b,
            R8::C => self.c,
            R8::D => self.d,
            R8::E => self.e,
            R8::H => self.h,
            _ => self.l,
        }
    }

    /// A copy of a register pair.
    fn reg_word(&self, r: R16) -> (w: Word)
        requires
            r == R16::DE || r == R16::BC || r == R16::HL,
        ensures
            w.word() == r16_val(self@, r),
    {
        match r {
            R16::DE => self.de(),
            R16::BC => self.bc(),
            _ => self.hl(),
        }
    }
}

/// The state after `inc_r8`: the operand one up, N reset (Z and H as the
/// checks give: never reset, never set).
pub open spec fn inc_r8_spec(s: Regs, r: R8) -> Regs {
    let val = r8_val(s, r);
    let s1 = r8_set(s, r, (val + 1) as u8);
    let f1 = reset_if(s.f, Flag::Z, val + 1 == 0);
    let f2 = set_if(with_flag(f1, Flag::N, false), Flag::H, carries(val, 1, 3));
    with_flags(s1, f2)
}

/// The state after `dec_r8`: the operand one down, Z set on zero, H as the
/// borrow check gives, N set.
pub open spec fn dec_r8_spec(s: Regs, r: R8) -> Regs {
    let val = r8_val(s, r);
    let s1 = r8_set(s, r, (val - 1) as u8);
    let f1 = set_if(s.f, Flag::Z, val - 1 == 0);
    let f2 = with_flag(set_if(f1, Flag::H, borrows(val, 1, 4)), Flag::N, true);
    with_flags(s1, f2)
}

/// The result of rotating `v` left (`left`) or right, with `fill` shifted in.
pub open spec fn rotated(v: u8, left: bool, fill: u8) -> u8 {
    if left {
        ((v * 2) % 256 + fill) as u8
    } else {
        (v / 2 + fill * 128) as u8
    }
}

/// The state after adding `val` (read as `s1` shows) to A: Z set on a zero
/// sum, N reset, H and C set on a carry out of bit 3 and bit 7.
pub open spec fn add_a_spec(s1: Regs, a: u8, val: u8, sum: u8) -> Regs {
    let f1 = with_flag(set_if(s1.f, Flag::Z, sum == 0), Flag::N, false);
    let f2 = set_if(set_if(f1, Flag::H, carries(a, val, 3)), Flag::C, carries(a, val, 7));
    Regs { a: sum, f: f2, ..s1 }
}

/// The flags after a logic operation with result `result`: Z set on zero, N
/// reset, H as given, C reset.
pub open spec fn logic_flags(f: u8, result: u8, h: bool) -> u8 {
    with_flag(with_flag(with_flag(set_if(f, Flag::Z, result == 0), Flag::N, false), Flag::H, h), Flag::C, false)
}

impl CPU {
    /// Rotates a register left; bit 7 goes to bit 0 and to C.
    fn rlc(&mut self, r: R8)
        requires
            is_reg(r),
        ensures
            ({
                let v = reg_val(old(self)@, r);
                let result = rotated(v, true, v / 128);
                final(self)@ == with_flags(r8_set(old(self)@, r, result), rot_flags(old(self)@.f, r, v / 128 == 1, result))
            }),
    {
        let val = self.reg(r).val();
        assert(bit::bit_of(val, 7) == val / 128 && val << 1u8 == (val * 2) % 256) by {
            bit::lemma_byte_fields(val);
        }
        let b7 = bit::get(val, 7);
        self.set_flag_from_val(Flag::C, b7);
        let result = (val << 1) + b7;
        self.ld_r8(r, result);
        if r == R8::A || result == 0 {
            self.reset_flag(Flag::Z);
        }
        self.reset_flag(Flag::N);
        self.reset_flag(Flag::H);
    }

    /// Rotates a register right; bit 0 goes to bit 7 and to C.
    fn rrc(&mut self, r: R8)
        requires
            is_reg(r),
        ensures
            ({
                let v = reg_val(old(self)@, r);
                let result = rotated(v, false, v % 2);
                final(self)@ == with_flags(r8_set(old(self)@, r, result), rot_flags(old(self)@.f, r, v % 2 == 1, result))
            }),
    {
        let val = self.reg(r).val();
        assert(bit::bit_of(val, 0) == val % 2 && val >> 1u8 == val / 2) by {
            bit::lemma_byte_fields(val);
        }
        let b0 = bit::get(val, 0);
        assert(b0 << 7u8 == b0 * 128) by {
            bit::lemma_byte_fields(b0);
        }
        self.set_flag_from_val(Flag::C, b0);
        let result = (val >> 1) + (b0 << 7);
        self.ld_r8(r, result);
        if r == R8::A || result == 0 {
            self.reset_flag(Flag::Z);
        }
        self.reset_flag(Flag::N);
        self.reset_flag(Flag::H);
    }

    /// Rotates a register left through C.
    fn rl(&mut self, r: R8)
        requires
            is_reg(r),
        ensures
            ({
                let v = reg_val(old(self)@, r);
                let cf: u8 = if flag_of(old(self)@.f, Flag::C) { 1 } else { 0 };
                let result = rotated(v, true, cf);
                final(self)@ == with_flags(r8_set(old(self)@, r, result), rot_flags(old(self)@.f, r, v / 128 == 1, result))
            }),
    {
        let val = self.reg(r).val();
        assert(bit::bit_of(val, 7) == val / 128 && val << 1u8 == (val * 2) % 256) by {
            bit::lemma_byte_fields(val);
        }
        let cf: u8 = if self.cf() {
            1
        } else {
            0
        };
        let b7 = bit::get(val, 7);
        self.set_flag_from_val(Flag::C, b7);
        let result = (val << 1) + cf;
        self.ld_r8(r, result);
        if r == R8::A || result == 0 {
            self.reset_flag(Flag::Z);
        }
        self.reset_flag(Flag::N);
        self.reset_flag(Flag::H);
    }

    /// Rotates a register right through C.
    fn rr(&mut self, r: R8)
        requires
            is_reg(r),
        ensures
            ({
                let v = reg_val(old(self)@, r);
                let cf: u8 = if flag_of(old(self)@.f, Flag::C) { 1 } else { 0 };
                let result = rotated(v, false, cf);
                final(self)@ == with_flags(r8_set(old(self)@, r, result), rot_flags(old(self)@.f, r, v % 2 == 1, result))
            }),
    {
        let val = self.reg(r).val();
        assert(bit::bit_of(val, 0) == val % 2 && val >> 1u8 == val / 2) by {
            bit::lemma_byte_fields(val);
        }
        let cf: u8 = if self.cf() {
            1
        } else {
            0
        };
        assert(cf << 7u8 == cf * 128) by {
            bit::lemma_byte_fields(cf);
        }
        let b0 = bit::get(val, 0);
        self.set_flag_from_val(Flag::C, b0);
        let result = (val >> 1) + (cf << 7);
        self.ld_r8(r, result);
        if r == R8::A || result == 0 {
            self.reset_flag(Flag::Z);
        }
        self.reset_flag(Flag::N);
        self.reset_flag(Flag::H);
    }

    fn ei(&mut self)
        ensures
            final(self)@ == (Regs { ie: true, ..old(self)@ }),
    {
        self.ie = true;
    }

    /// Decimal adjust of A; the adjusted value must stay in a byte.
    fn daa(&mut self)
        requires
            daa_ok(old(self)@),
        ensures
            ({
                let s = old(self)@;
                let (adj, up) = daa_adj(s);
                let result = if flag_of(s.f, Flag::N) { (s.a - adj) as u8 } else { (s.a + adj) as u8 };
                let f1 = set_if(s.f, Flag::C, up);
                let f2 = reset_if(with_flag(f1, Flag::H, false), Flag::Z, result == 0);
                final(self)@ == (Regs { a: result, f: f2, ..s })
            }),
    {
        let a = self.a.val();
        assert(a & 0xF == a % 16) by {
            bit::lemma_byte_fields(a);
        }
        if self.flag(Flag::N) {
            let mut adj: u8 = 0;
            if self.flag(Flag::H) {
                adj += 0x6;
            }
            if self.flag(Flag::C) {
                adj += 0x60;
            }
            let result = a - adj;
            self.a.write(result);
            self.reset_flag(Flag::H);
            if result == 0 {
                self.reset_flag(Flag::Z);
            }
        } else {
            let mut adj: u8 = 0;
            if self.flag(Flag::H) || (a & 0xF) > 0x9 {
                adj += 0x6;
            }
            if self.flag(Flag::C) || a > 0x99 {
                adj += 0x60;
                self.set_flag(Flag::C);
            }
            let result = a + adj;
            self.a.write(result);
            self.reset_flag(Flag::H);
            if result == 0 {
                self.reset_flag(Flag::Z);
            }
        }
    }

    fn cpl(&mut self)
        ensures
            final(self)@ == (Regs {
                a: !old(self)@.a,
                f: with_flag(with_flag(old(self)@.f, Flag::N, true), Flag::H, true),
                ..old(self)@
            }),
    {
        let v = !self.a.val();
        self.a.write(v);
        self.set_flag(Flag::N);
        self.set_flag(Flag::H);
    }

    fn scf(&mut self)
        ensures
            final(self)@ == with_flags(
                old(self)@,
                with_flag(with_flag(with_flag(old(self)@.f, Flag::N, false), Flag::H, false), Flag::C, true),
            ),
    {
        self.reset_flag(Flag::N);
        self.reset_flag(Flag::H);
        self.set_flag(Flag::C);
    }

    fn ccf(&mut self)
        ensures
            ({
                let f1 = with_flag(with_flag(old(self)@.f, Flag::N, false), Flag::H, false);
                final(self)@ == with_flags(old(self)@, with_flag(f1, Flag::C, !flag_of(f1, Flag::C)))
            }),
    {
        self.reset_flag(Flag::N);
        self.reset_flag(Flag::H);
        self.invert_flag(Flag::C);
    }
}

/// Whether an addition goes through without overflow.
pub open spec fn add_ok(s: Regs, add: ADD) -> bool {
    match add {
        ADD::R8(_, r) => read_r8_ok(s, r) && s.a + read_r8(s, r).0 <= 255,
        ADD::R16(_, r) => read_r16_ok(s, r) && hl_of(s) + read_r16(s, r).0 <= 0xFFFF,
        ADD::SP(_) => s.pc < 0xFFFF && s.sp + s.mem.byte_at(s.pc) <= 0xFFFF,
    }
}

/// The state after `add_r8`.
pub open spec fn add_r8_spec(s: Regs, r: R8) -> Regs {
    let (val, s1) = read_r8(s, r);
    add_a_spec(s1, s.a, val, (s.a + val) as u8)
}

/// The state after `add_r16`: HL plus the operand, N reset, H and C set on a
/// carry out of bit 11 and bit 15.
pub open spec fn add_r16_spec(s: Regs, r: R16) -> Regs {
    let hl = hl_of(s);
    let (val, s1) = read_r16(s, r);
    let f1 = with_flag(s1.f, Flag::N, false);
    let f2 = set_if(set_if(f1, Flag::H, carries16(hl, val, 11)), Flag::C, carries16(hl, val, 15));
    with_flags(r16_set(s1, R16::HL, (hl + val) as u16), f2)
}

/// The state after `add_sp`: SP plus the fetched byte, Z and N reset, H set on
/// a carry out of bit 3 or bit 7.
pub open spec fn add_sp_spec(s: Regs) -> Regs {
    let val = s.mem.byte_at(s.pc) as u16;
    let f1 = with_flag(with_flag(s.f, Flag::Z, false), Flag::N, false);
    let f2 = set_if(set_if(f1, Flag::H, carries16(s.sp, val, 3)), Flag::H, carries16(s.sp, val, 7));
    Regs { sp: (s.sp + val) as u16, pc: (s.pc + 1) as u16, f: f2, ..s }
}

pub open spec fn add_spec(s: Regs, add: ADD) -> Regs {
    match add {
        ADD::R8(_, r) => add_r8_spec(s, r),
        ADD::R16(_, r) => add_r16_spec(s, r),
        ADD::SP(_) => add_sp_spec(s),
    }
}

impl CPU {
    /// An addition: to A, to HL or to SP (the first operand is implied).
    fn add(&mut self, add: ADD)
        requires
            add_ok(old(self)@, add),
        ensures
            final(self)@ == add_spec(old(self)@, add),
    {
        match add {
            ADD::R8(_, r) => self.add_r8(r),
            ADD::R16(_, r) => self.add_r16(r),
            ADD::SP(_) => self.add_sp(),
        }
    }

    /// Adds an 8-bit operand to A; the sum must fit in a byte.
    fn add_r8(&mut self, r: R8)
        requires
            read_r8_ok(old(self)@, r),
            old(self)@.a + read_r8(old(self)@, r).0 <= 255,
        ensures
            final(self)@ == add_r8_spec(old(self)@, r),
    {
        let a = self.a.val();
        let val = self.src_r8(r);
        let result = a + val;
        self.a.write(result);
        if result == 0 {
            self.set_flag(Flag::Z);
        }
        self.reset_flag(Flag::N);
        if bit::check_overflow(a, val, 3) {
            self.set_flag(Flag::H);
        }
        if bit::check_overflow(a, val, 7) {
            self.set_flag(Flag::C);
        }
    }

    /// Adds a 16-bit operand to HL; the sum must fit in a word.
    fn add_r16(&mut self, r: R16)
        requires
            read_r16_ok(old(self)@, r),
            hl_of(old(self)@) + read_r16(old(self)@, r).0 <= 0xFFFF,
        ensures
            final(self)@ == add_r16_spec(old(self)@, r),
    {
        let hl = self.hl().val();
        let val = self.src_r16(r);
        let result = hl + val;
        let mut w = self.hl();
        w.write(result);
        self.h = w.high;
        self.l = w.low;
        self.reset_flag(Flag::N);
        if bit::check_overflow_word(hl, val, 11) {
            self.set_flag(Flag::H);
        }
        if bit::check_overflow_word(hl, val, 15) {
            self.set_flag(Flag::C);
        }
    }

    /// Adds the fetched byte to SP; the sum must fit in a word.
    fn add_sp(&mut self)
        requires
            old(self)@.pc < 0xFFFF,
            old(self)@.sp + old(self)@.mem.byte_at(old(self)@.pc) <= 0xFFFF,
        ensures
            final(self)@ == add_sp_spec(old(self)@),
    {
        let val = self.fetch() as u16;
        let sp = self.sp;
        self.sp += val;
        self.reset_flag(Flag::Z);
        self.reset_flag(Flag::N);
        if bit::check_overflow_word(sp, val, 3) {
            self.set_flag(Flag::H);
        }
        if bit::check_overflow_word(sp, val, 7) {
            self.set_flag(Flag::H);
        }
    }

    /// Adds an 8-bit operand and C to A; the sum must fit in a byte.
    fn adc(&mut self, b: R8)
        requires
            read_r8_ok(old(self)@, b),
            old(self)@.a + read_r8(old(self)@, b).0 + (if flag_of(old(self)@.f, Flag::C) { 1int } else { 0int }) <= 255,
        ensures
            ({
                let s = old(self)@;
                let cf: u8 = if flag_of(s.f, Flag::C) { 1 } else { 0 };
                let (val, s1) = read_r8(s, b);
                let sum = (s.a + val + cf) as u8;
                let f1 = with_flag(set_if(s1.f, Flag::Z, sum == 0), Flag::N, false);
                let f2 = set_if(set_if(f1, Flag::H, carries(s.a, (val + cf) as u8, 3)), Flag::C, carries(s.a, (val + cf) as u8, 7));
                final(self)@ == (Regs { a: sum, f: f2, ..s1 })
            }),
    {
        let a = self.a.val();
        let cf: u8 = if self.cf() {
            1
        } else {
            0
        };
        let val = self.src_r8(b);
        let result = a + val + cf;
        self.a.write(result);
        if result == 0 {
            self.set_flag(Flag::Z);
        }
        self.reset_flag(Flag::N);
        if bit::check_overflow(a, val + cf, 3) {
            self.set_flag(Flag::H);
        }
        if bit::check_overflow(a, val + cf, 7) {
            self.set_flag(Flag::C);
        }
    }

    /// Subtracts a register from A, writing the difference to that register (as
    /// the code has it); there must be no borrow.
    fn sub(&mut self, r: R8)
        requires
            is_reg(r),
            reg_val(old(self)@, r) <= old(self)@.a,
            borrow_ok(old(self)@.a, reg_val(old(self)@, r), 4),
        ensures
            ({
                let s = old(self)@;
                let val = reg_val(s, r);
                let result = (s.a - val) as u8;
                let f1 = with_flag(set_if(s.f, Flag::Z, result == 0), Flag::N, true);
                let f2 = set_if(set_if(f1, Flag::H, borrows(s.a, val, 4)), Flag::C, val > s.a);
                final(self)@ == with_flags(r8_set(s, r, result), f2)
            }),
    {
        let a = self.a.val();
        let val = self.src_r8(r);
        let result = a - val;
        self.ld_r8(r, result);
        if result == 0 {
            self.set_flag(Flag::Z);
        }
        self.set_flag(Flag::N);
        if bit::check_borrow(a, val, 4) {
            self.set_flag(Flag::H);
        }
        if bit::check_borrow(a, val, 8) {
            self.set_flag(Flag::C);
        }
    }

    /// Subtracts an 8-bit operand and C from A; there must be no borrow.
    fn sbc(&mut self, r: R8)
        requires
            read_r8_ok(old(self)@, r),
            read_r8(old(self)@, r).0 + (if flag_of(old(self)@.f, Flag::C) { 1int } else { 0int }) <= old(self)@.a,
            borrow_ok(old(self)@.a, read_r8(old(self)@, r).0, 4),
        ensures
            ({
                let s = old(self)@;
                let cf: u8 = if flag_of(s.f, Flag::C) { 1 } else { 0 };
                let (val, s1) = read_r8(s, r);
                let result = (s.a - (val + cf)) as u8;
                let f1 = with_flag(set_if(s1.f, Flag::Z, result == 0), Flag::N, true);
                let f2 = set_if(set_if(f1, Flag::H, borrows(s.a, val, 4)), Flag::C, val + cf > s.a);
                final(self)@ == (Regs { a: result, f: f2, ..s1 })
            }),
    {
        let a = self.a.val();
        let cf: u8 = if self.cf() {
            1
        } else {
            0
        };
        let val = self.src_r8(r);
        let result = a - (val + cf);
        self.a.write(result);
        if result == 0 {
            self.set_flag(Flag::Z);
        }
        self.set_flag(Flag::N);
        if bit::check_borrow(a, val, 4) {
            self.set_flag(Flag::H);
        }
        if bit::check_borrow(a, val + cf, 8) {
            self.set_flag(Flag::C);
        }
    }

    fn and(&mut self, r: R8)
        requires
            read_r8_ok(old(self)@, r),
        ensures
            ({
                let (val, s1) = read_r8(old(self)@, r);
                let result = old(self)@.a & val;
                final(self)@ == (Regs { a: result, f: logic_flags(s1.f, result, true), ..s1 })
            }),
    {
        let a = self.a.val();
        let val = self.src_r8(r);
        let result = a & val;
        self.a.write(result);
        if result == 0 {
            self.set_flag(Flag::Z);
        }
        self.reset_flag(Flag::N);
        self.set_flag(Flag::H);
        self.reset_flag(Flag::C);
    }

    fn xor(&mut self, r: R8)
        requires
            read_r8_ok(old(self)@, r),
        ensures
            ({
                let (val, s1) = read_r8(old(self)@, r);
                let result = old(self)@.a ^ val;
                final(self)@ == (Regs { a: result, f: logic_flags(s1.f, result, false), ..s1 })
            }),
    {
        let a = self.a.val();
        let val = self.src_r8(r);
        let result = a ^ val;
        self.a.write(result);
        if result == 0 {
            self.set_flag(Flag::Z);
        }
        self.reset_flag(Flag::N);
        self.reset_flag(Flag::H);
        self.reset_flag(Flag::C);
    }

    fn or(&mut self, r: R8)
        requires
            read_r8_ok(old(self)@, r),
        ensures
            ({
                let (val, s1) = read_r8(old(self)@, r);
                let result = old(self)@.a | val;
                final(self)@ == (Regs { a: result, f: logic_flags(s1.f, result, false), ..s1 })
            }),
    {
        let a = self.a.val();
        let val = self.src_r8(r);
        let result = a | val;
        self.a.write(result);
        if result == 0 {
            self.set_flag(Flag::Z);
        }
        self.reset_flag(Flag::N);
        self.reset_flag(Flag::H);
        self.reset_flag(Flag::C);
    }

    /// Compares an 8-bit operand with A; there must be no borrow.
    fn cp(&mut self, r: R8)
        requires
            read_r8_ok(old(self)@, r),
            read_r8(old(self)@, r).0 <= old(self)@.a,
            borrow_ok(old(self)@.a, read_r8(old(self)@, r).0, 4),
        ensures
            ({
                let s = old(self)@;
                let (val, s1) = read_r8(s, r);
                let result = (s.a - val) as u8;
                let f1 = with_flag(set_if(s1.f, Flag::Z, result == 0), Flag::N, false);
                let f2 = set_if(set_if(f1, Flag::H, borrows(s.a, val, 4)), Flag::C, val > s.a);
                final(self)@ == with_flags(s1, f2)
            }),
    {
        let a = self.a.val();
        let val = self.src_r8(r);
        let result = a - val;
        if result == 0 {
            self.set_flag(Flag::Z);
        }
        self.reset_flag(Flag::N);
        if bit::check_borrow(a, val, 4) {
            self.set_flag(Flag::H);
        }
        if bit::check_borrow(a, val, 8) {
            self.set_flag(Flag::C);
        }
    }
}

/// The high-page address of an LDH operand: C, or the fetched byte.
pub open spec fn ldh_addr(s: Regs, m: Mem) -> (u16, Regs) {
    if m == Mem::C {
        ((s.c + 0xFF00) as u16, s)
    } else {
        ((s.mem.byte_at(s.pc) + 0xFF00) as u16, step_pc(s, 1))
    }
}

pub open spec fn ldh_ok(s: Regs, m: Mem) -> bool {
    m == Mem::C || (m == Mem::N8 && s.pc < 0xFFFF)
}

/// Whether the operation of an instruction goes through.
pub open spec fn execute_ok(s: Regs, op: Operation) -> bool {
    match op {
        Operation::LD(ld) => ld_ok(s, ld),
        Operation::INC(INC::R8(r)) => r != R8::N8 && r8_val(s, r) < 255,
        Operation::INC(INC::R16(r)) => r16_inc_ok(s, r),
        Operation::DEC(DEC::R8(r)) => r != R8::N8 && r8_val(s, r) > 0,
        Operation::DEC(DEC::R16(r)) => r16_dec_ok(s, r),
        Operation::ADD(add) => add_ok(s, add),
        Operation::DAA => daa_ok(s),
        Operation::PUSH(r) => read_r16_ok(s, r) && s.sp >= 2,
        Operation::POP(r) => s.sp <= 0xFFFD && r16_writable(r),
        _ => true,
    }
}

/// Rotating A as the accumulator rotations do.
pub open spec fn rot_a(s: Regs, left: bool, through: bool) -> Regs {
    let v = s.a;
    let cf: u8 = if flag_of(s.f, Flag::C) { 1 } else { 0 };
    let out = if left { v / 128 } else { v % 2 };
    let fill = if through { cf } else { out };
    let result = rotated(v, left, fill);
    with_flags(r8_set(s, R8::A, result), rot_flags(s.f, R8::A, out == 1, result))
}

/// The state after running the operation of an instruction.
pub open spec fn execute_spec(s: Regs, op: Operation) -> Regs {
    match op {
        Operation::DI => Regs { ie: false, ..s },
        Operation::EI => Regs { ie: true, ..s },
        Operation::STOP => Regs { stop: true, ..s },
        Operation::HALT => Regs { halt: true, ..s },
        Operation::LD(ld) => ld_spec(s, ld),
        Operation::INC(INC::R8(r)) => inc_r8_spec(s, r),
        Operation::INC(INC::R16(r)) => r16_set(s, r, (r16_val(s, r) + 1) as u16),
        Operation::DEC(DEC::R8(r)) => dec_r8_spec(s, r),
        Operation::DEC(DEC::R16(r)) => r16_set(s, r, r16_dec_val(s, r)),
        Operation::ADD(add) => add_spec(s, add),
        Operation::RLCA => rot_a(s, true, false),
        Operation::RRCA => rot_a(s, false, false),
        Operation::RLA => rot_a(s, true, true),
        Operation::RRA => rot_a(s, false, true),
        Operation::DAA => {
            let (adj, up) = daa_adj(s);
            let result = if flag_of(s.f, Flag::N) { (s.a - adj) as u8 } else { (s.a + adj) as u8 };
            let f1 = set_if(s.f, Flag::C, up);
            Regs { a: result, f: reset_if(with_flag(f1, Flag::H, false), Flag::Z, result == 0), ..s }
        },
        Operation::CPL => Regs {
            a: !s.a,
            f: with_flag(with_flag(s.f, Flag::N, true), Flag::H, true),
            ..s
        },
        Operation::SCF => with_flags(
            s,
            with_flag(with_flag(with_flag(s.f, Flag::N, false), Flag::H, false), Flag::C, true),
        ),
        Operation::PUSH(r) => push_spec(read_r16(s, r).1, read_r16(s, r).0),
        Operation::POP(r) => r16_set(
            Regs { sp: (s.sp + 2) as u16, ..s },
            r,
            if r == R16::AF {
                word_at(s.mem, s.sp) & 0xFFF0
            } else {
                word_at(s.mem, s.sp)
            },
        ),
        _ => s,
    }
}

impl CPU {
    /// Runs a decoded instruction.
    pub fn execute(&mut self, i: Instruction)
        requires
            execute_ok(old(self)@, i.op),
        ensures
            final(self)@ == execute_spec(old(self)@, i.op),
    {
        match i.op() {
            Operation::NOP => {},
            Operation::DI => self.ie = false,
            Operation::EI => self.ie = true,
            Operation::STOP => self.stop = true,
            Operation::HALT => self.halt = true,
            Operation::LD(ld) => {
                let _ = self.ld(ld);
            },
            Operation::INC(inc) => self.inc(inc),
            Operation::DEC(dec) => self.dec(dec),
            Operation::ADD(add) => self.add(add),
            Operation::RLCA => self.rlc(R8::A),
            Operation::RRCA => self.rrc(R8::A),
            Operation::RLA => self.rl(R8::A),
            Operation::RRA => self.rr(R8::A),
            Operation::DAA => self.daa(),
            Operation::CPL => self.cpl(),
            Operation::SCF => self.scf(),
            Operation::PUSH(r) => self.push_r16(r),
            Operation::POP(r) => self.pop(r),
            _ => (),
        }
    }

    /// Loads A from the high page: at C, or at the fetched byte.
    fn ldh_a(&mut self, m: Mem)
        requires
            ldh_ok(old(self)@, m),
        ensures
            ({
                let (addr, s1) = ldh_addr(old(self)@, m);
                final(self)@ == (Regs { a: s1.mem.byte_at(addr), ..s1 })
            }),
    {
        let addr = match m {
            Mem::C => (self.c.val() as u16) + 0xFF00,
            _ => (self.fetch() as u16) + 0xFF00,
        };
        let val = self.mem.read(addr);
        self.a.write(val);
    }

    /// Stores A in the high page: at C, or at the fetched byte.
    fn ldh_m(&mut self, m: Mem)
        requires
            ldh_ok(old(self)@, m),
        ensures
            ({
                let (addr, s1) = ldh_addr(old(self)@, m);
                final(self)@ == (Regs { mem: s1.mem.stored(addr, old(self)@.a), ..s1 })
            }),
    {
        let a = self.a.val();
        let addr = match m {
            Mem::C => (self.c.val() as u16) + 0xFF00,
            _ => (self.fetch() as u16) + 0xFF00,
        };
        self.mem.write(addr, a);
    }

    /// Returns: PC takes SP itself (as the code has it) and SP moves up by two.
    fn ret(&mut self)
        requires
            old(self)@.sp <= 0xFFFD,
        ensures
            final(self)@ == (Regs { pc: old(self)@.sp, sp: (old(self)@.sp + 2) as u16, ..old(self)@ }),
    {
        self.pc = self.sp;
        self.sp += 2;
    }

    fn ret_cond(&mut self, c: Cond)
        requires
            old(self)@.sp <= 0xFFFD,
        ensures
            final(self)@ == if cond_ok(old(self)@.f, c) {
                Regs { pc: old(self)@.sp, sp: (old(self)@.sp + 2) as u16, ..old(self)@ }
            } else {
                old(self)@
            },
    {
        if self.cc(c) {
            self.ret();
        }
    }

    fn reti(&mut self)
        requires
            old(self)@.sp <= 0xFFFD,
        ensures
            final(self)@ == (Regs {
                pc: old(self)@.sp,
                sp: (old(self)@.sp + 2) as u16,
                ie: true,
                ..old(self)@
            }),
    {
        self.ei();
        self.ret();
    }

    /// Shifts an operand left; bit 7 goes to C.
    fn sla(&mut self, r: R8)
        requires
            r != R8::N8,
        ensures
            ({
                let v = r8_val(old(self)@, r);
                let result = ((v * 2) % 256) as u8;
                final(self)@ == r8_set(with_flags(old(self)@, shift_flags(old(self)@.f, v / 128 == 1, result)), r, result)
            }),
    {
        let v = self.src_r8(r);
        assert(bit::bit_of(v, 7) == v / 128 && v << 1u8 == (v * 2) % 256) by {
            bit::lemma_byte_fields(v);
        }
        let v7 = bit::get(v, 7);
        self.set_flag_from_val(Flag::C, v7);
        let v = v << 1;
        if v == 0 {
            self.reset_flag(Flag::Z);
        }
        self.reset_flag(Flag::N);
        self.reset_flag(Flag::H);
        self.ld_r8(r, v);
    }

    /// Shifts an operand right keeping bit 7; bit 0 goes to C.
    fn sra(&mut self, r: R8)
        requires
            r != R8::N8,
        ensures
            ({
                let v = r8_val(old(self)@, r);
                let result = ((v / 2) + (v / 128) * 128) as u8;
                final(self)@ == r8_set(with_flags(old(self)@, shift_flags(old(self)@.f, v % 2 == 1, result)), r, result)
            }),
    {
        let v = self.src_r8(r);
        assert(bit::bit_of(v, 0) == v % 2 && bit::bit_of(v, 7) == v / 128 && v >> 1u8 == v / 2) by {
            bit::lemma_byte_fields(v);
        }
        let v0 = bit::get(v, 0);
        let b7 = bit::get(v, 7);
        assert(b7 << 7u8 == b7 * 128 && (v >> 1u8) | (b7 << 7u8) == v / 2 + b7 * 128) by {
            bit::lemma_byte_fields(b7);
            bit::lemma_shift_or(v, b7);
        }
        let v7 = b7 << 7;
        self.set_flag_from_val(Flag::C, v0);
        let v = v >> 1 | v7;
        if v == 0 {
            self.reset_flag(Flag::Z);
        }
        self.reset_flag(Flag::N);
        self.reset_flag(Flag::H);
        self.ld_r8(r, v);
    }

    /// Swaps the nibbles of an operand; Z reset on zero, N, H and C reset.
    fn swap(&mut self, r: R8)
        requires
            r != R8::N8,
        ensures
            ({
                let v = r8_val(old(self)@, r);
                let result = ((v % 16) * 16 + v / 16) as u8;
                let s1 = r8_set(old(self)@, r, result);
                let f1 = reset_if(s1.f, Flag::Z, result == 0);
                final(self)@ == with_flags(s1, with_flag(with_flag(with_flag(f1, Flag::N, false), Flag::H, false), Flag::C, false))
            }),
    {
        let v = self.src_r8(r);
        proof {
            bit::lemma_swap_nibbles(v);
        }
        let l = (v & 0b1111) << 4;
        let h = (v & 0b1111_0000) >> 4;
        let v = l | h;
        self.ld_r8(r, v);
        if v == 0 {
            self.reset_flag(Flag::Z);
        }
        self.reset_flag(Flag::N);
        self.reset_flag(Flag::H);
        self.reset_flag(Flag::C);
    }

    /// Shifts an operand right; bit 0 goes to C.
    fn srl(&mut self, r: R8)
        requires
            r != R8::N8,
        ensures
            ({
                let v = r8_val(old(self)@, r);
                let result = v / 2;
                final(self)@ == r8_set(with_flags(old(self)@, shift_flags(old(self)@.f, v % 2 == 1, result)), r, result)
            }),
    {
        let v = self.src_r8(r);
        assert(bit::bit_of(v, 0) == v % 2 && v >> 1u8 == v / 2) by {
            bit::lemma_byte_fields(v);
        }
        let v0 = bit::get(v, 0);
        self.set_flag_from_val(Flag::C, v0);
        let v = v >> 1;
        if v == 0 {
            self.reset_flag(Flag::Z);
        }
        self.reset_flag(Flag::N);
        self.reset_flag(Flag::H);
        self.ld_r8(r, v);
    }

    /// Tests bit `b` of an operand: Z set when the bit is set (as the code has
    /// it), N reset, H set.
    fn bit(&mut self, b: B3, r: R8)
        requires
            read_r8_ok(old(self)@, r),
            b.0 < 8,
        ensures
            ({
                let (val, s1) = read_r8(old(self)@, r);
                let f1 = set_if(s1.f, Flag::Z, bit::bit_of(val, b.0) == 1);
                final(self)@ == with_flags(s1, with_flag(with_flag(f1, Flag::N, false), Flag::H, true))
            }),
    {
        let val = self.src_r8(r);
        let i = b.val();
        if bit::is_set(val, i) {
            self.set_flag(Flag::Z);
        }
        self.reset_flag(Flag::N);
        self.set_flag(Flag::H);
    }

    /// Resets bit `b` of an operand.
    fn res(&mut self, b: B3, r: R8)
        requires
            r != R8::N8,
            b.0 < 8,
        ensures
            final(self)@ == r8_set(old(self)@, r, r8_val(old(self)@, r) & !(1u8 << b.0)),
    {
        let mut val = self.src_r8(r);
        let i = b.val();
        bit::reset(&mut val, i);
        self.ld_r8(r, val);
    }

    /// Sets bit `b` of an operand.
    fn set(&mut self, b: B3, r: R8)
        requires
            r != R8::N8,
            b.0 < 8,
        ensures
            final(self)@ == r8_set(old(self)@, r, r8_val(old(self)@, r) | (1u8 << b.0)),
    {
        let mut val = self.src_r8(r);
        let i = b.val();
        bit::set(&mut val, i);
        self.ld_r8(r, val);
    }
}

/// Popping right after a push gives back the pushed word and SP (F keeps only
/// its high nibble when the word goes to AF).
pub proof fn lemma_push_then_pop(s: Regs, v: u16, r: R16)
    requires
        s.sp >= 2,
        r16_writable(r),
    ensures
        ({
            let t = push_spec(s, v);
            &&& t.sp <= 0xFFFD
            &&& word_at(t.mem, t.sp) == v
            &&& (t.sp + 2) as u16 == s.sp
            &&& r16_val(execute_spec(t, Operation::POP(r)), r) == if r == R16::AF {
                v & 0xFFF0
            } else {
                v
            }
        }),
{
    let t = push_spec(s, v);
    let sp = (s.sp - 2) as u16;
    let m1 = s.mem.stored(sp, (v % 256) as u8);
    crate::memory::lemma_read_after_write(s.mem, sp, (v % 256) as u8, sp);
    crate::memory::lemma_read_after_write(m1, (sp + 1) as u16, (v / 256) as u8, sp);
    crate::memory::lemma_read_after_write(m1, (sp + 1) as u16, (v / 256) as u8, (sp + 1) as u16);
    assert(crate::memory::phys(sp) != crate::memory::phys((sp + 1) as u16));
    let w = if r == R16::AF { v & 0xFFF0 } else { v };
    lemma_word_split(w);
}

/// A word splits into its high and low bytes and joins back.
proof fn lemma_word_split(w: u16)
    ensures
        word_of((w / 256) as u8, (w % 256) as u8) == w,
{
}

/// The opcodes of the first block all decode.
pub proof fn lemma_block_0_decodes(opcode: u8)
    requires
        opcode < 0x40,
    ensures
        instructions::decode_spec(opcode) is Ok,
{
}

} // verus!
