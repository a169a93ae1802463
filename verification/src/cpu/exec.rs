use vstd::prelude::*;

use super::cpu::{
    assert_inc_spec, assert_ok, assert_spec, byte_src, byte_src_ok, dec_ok, dec_spec, dst_ok,
    fetch_op_spec, inc_ok, inc_spec, assert_inc_ok, load_ok, load_spec, set_reg, src_ok, src_val, store_byte,
    is_byte_reg, with_f, CpuState, Flag, CPU, rlc_spec, rl_spec, rrc_spec, rr_spec, daa_spec, daa_value,
    op_spec, cond_holds, bytes, is_zero, op_ok, arith_ok, add_spec, adc_spec, sub_spec, sbc_spec,
    flags_after, add_value, add_flags, adc_value, adc_flags, sub_value, sub_flags, sbc_value,
    sbc_flags, carry_in, fetch_spec, fetched, Error, Register, Word,
};
use super::instr::{
    self, decoded, decoded_view, word_of, Cond, Fetch, InstrView, Instruction, Op, DEC, R16, R8,
};
use crate::utils::bit;

verus! {

/// The decimal adjustment of `a` for the flags N, H and C.
#[verifier::spinoff_prover]
fn daa_adjust(a: u8, n: bool, h: bool, c: bool) -> (r: u8)
    ensures
        r == daa_value(a, n, h, c),
{
    let low = a & 0xF;
    assert(low == a % 16) by {
        bit::lemma_byte_fields(a);
    }
    let mut result: u8 = a;
    if n {
        if h {
            result = result.wrapping_sub(0x6);
        }
        assert(result == (if h { (a + 250) % 256 } else { a as int }));
        if c {
            result = result.wrapping_sub(0x60);
        }
    } else {
        if h || low > 0x9 {
            result = result.wrapping_add(0x6);
        }
        assert(result == (if h || a % 16 > 9 { (a + 6) % 256 } else { a as int }));
        if c || a > 0x99 {
            result = result.wrapping_add(0x60);
        }
    }
    result
}

/// Whether `Instruction::decode` takes `opcode`: every opcode below 0x40 but the
/// 16-bit loads through A and the 16-bit decrements, every opcode from 0x40 to
/// 0xBF, and from 0xC0 on the pops, pushes, restarts and the immediate forms of
/// ADD, ADC, SUB, AND and OR.
fn decodable(opcode: u8) -> (b: bool)
    ensures
        b == (decoded(opcode) is Some),
{
    let low = opcode % 16;
    if opcode < 0x40 {
        low != 0xA && low != 0xB
    } else if opcode < 0xC0 {
        true
    } else {
        low == 1 || low == 5 || low == 7 || low == 0xF || opcode == 0xC6 || opcode == 0xCE
            || opcode == 0xD6 || opcode == 0xE6 || opcode == 0xF6
    }
}

/// Whether operand `r` can be written.
fn writable(r: instr::Register) -> (b: bool)
    ensures
        b == dst_ok(r),
{
    match r {
        instr::Register::BC | instr::Register::DE | instr::Register::HL | instr::Register::SP
        | instr::Register::PC | instr::Register::B | instr::Register::D | instr::Register::H
        | instr::Register::C | instr::Register::E | instr::Register::L | instr::Register::A => true,
        _ => false,
    }
}

/// Whether `r` is one of the seven 8-bit registers.
fn byte_reg(r: instr::Register) -> (b: bool)
    ensures
        b == is_byte_reg(r),
{
    match r {
        instr::Register::A | instr::Register::B | instr::Register::C | instr::Register::D
        | instr::Register::E | instr::Register::H | instr::Register::L => true,
        _ => false,
    }
}

/// An 8-bit operand other than the signed offset reads as a byte.
proof fn lemma_byte_src_small(s: CpuState, r: instr::Register)
    requires
        r.spec_is_byte(),
        r != instr::Register::NE,
        src_ok(s, r),
    ensures
        src_val(s, r) < 256,
{
    reveal(src_val);
}

/// Carrying out of the low nibble, or out of the byte, in two steps (the
/// operands, then the carry) is carrying out of it in one.
proof fn lemma_nibble_carry(a: u16, b: u16, c: u16)
    requires
        c <= 1,
    ensures
        ((a % 256) % 16 + (b % 256) % 16 > 15 || (((a % 256) + (b % 256)) % 256) % 16 + (c % 256)
            % 16 > 15) == ((a % 256) % 16 + (b % 256) % 16 + c > 15),
        ((a % 256) + (b % 256) > 0xFF || ((a % 256) + (b % 256)) % 256 + c % 256 > 0xFF) == ((a
            % 256) + (b % 256) + c > 0xFF),
{
    assert(((a % 256) % 16 + (b % 256) % 16 > 15 || (((a % 256) + (b % 256)) % 256) % 16 + (c
        % 256) % 16 > 15) == ((a % 256) % 16 + (b % 256) % 16 + c > 15) && ((a % 256) + (b % 256)
        > 0xFF || ((a % 256) + (b % 256)) % 256 + c % 256 > 0xFF) == ((a % 256) + (b % 256) + c
        > 0xFF)) by (bit_vector)
        requires
            c <= 1,
    ;
}

/// A borrow through the low nibble, or out of the byte, in two steps (the
/// operand, then the carry) is one in a single step.
proof fn lemma_nibble_borrow(x: u8, y: u8, c: u8)
    requires
        c <= 1,
    ensures
        ({
            let res = x % 16 + (15 - y % 16);
            (res < 15 || (res - c + 256) % 256 < 15) == (x % 16 < y % 16 + c)
        }),
        ({
            let res = x + (255 - y);
            (res < 255 || (res - c + 65536) % 65536 < 255) == (x < y + c)
        }),
{
    assert(({
        let res = x % 16 + (15 - y % 16);
        (res < 15 || (res - c + 256) % 256 < 15) == (x % 16 < y % 16 + c)
    }) && ({
        let res = x + (255 - y);
        (res < 255 || (res - c + 65536) % 65536 < 255) == (x < y + c)
    })) by (bit_vector)
        requires
            c <= 1,
    ;
}

/// The flags that the SBC checks compute are those of `sbc_flags`.
proof fn lemma_sbc_flags(
    s: CpuState,
    r1: instr::Register,
    r2: instr::Register,
    hc: bool,
    cy: bool,
    z: bool,
)
    requires
        bytes(r1, r2),
        src_val(s, r1) < 256,
        hc == ({
            let res = (src_val(s, r1) % 256) % 16 + (15 - (src_val(s, r2) % 256) % 16);
            res < 15 || (res - carry_in(s) % 256 + 256) % 256 < 15
        }),
        cy == ({
            let res = (src_val(s, r1) + (255 - src_val(s, r2) % 256)) % 65536;
            res < 0xFF || (res - carry_in(s) + 65536) % 65536 < 0xFF
        }),
        z == is_zero(r1, r2, sbc_value(s, r1, r2)),
    ensures
        sbc_flags(s, r1, r2) == flags_after(s.f, hc, cy, r1, z, true),
{
    let x = src_val(s, r1);
    let y = src_val(s, r2) % 256;
    let c = carry_in(s);
    lemma_nibble_borrow(x as u8, y as u8, c as u8);
    assert(hc == ((x % 256) % 16 < y % 16 + c));
    assert(cy == (x < y + c));
}

/// Writing an operand other than F leaves the flags alone, and commutes with
/// replacing the flags.
proof fn lemma_set_reg_flags(s: CpuState, r: instr::Register, v: u16, f: u8)
    requires
        dst_ok(r),
    ensures
        set_reg(s, r, v).f == s.f,
        with_f(set_reg(s, r, v), f) == set_reg(with_f(s, f), r, v),
{
}

impl CPU {
    /// Puts `v` on the data bus and stores it at the address on the address line.
    fn store(&mut self, v: u8)
        ensures
            final(self)@ == store_byte(old(self)@, v),
    {
        self.data_bus.drive(&mut self.mem, v);
        self.data_bus.write(&mut self.mem);
    }

    /// Writes `val` to an operand: a pair takes the word, an 8-bit register its low byte.
    fn load_register(&mut self, dst: instr::Register, val: u16)
        requires
            dst_ok(dst),
        ensures
            final(self)@ == set_reg(old(self)@, dst, val),
    {
        proof {
            bit::lemma_word_fields(val);
        }
        match dst {
            instr::Register::BC => {
                let mut w = self.bc();
                w.write(val);
                self.b = w.high;
                self.c = w.low;
            },
            instr::Register::DE => {
                let mut w = self.de();
                w.write(val);
                self.d = w.high;
                self.e = w.low;
            },
            instr::Register::HL => {
                let mut w = self.hl();
                w.write(val);
                self.h = w.high;
                self.l = w.low;
            },
            instr::Register::SP => self.sp = val,
            instr::Register::PC => self.pc = val,
            instr::Register::B => self.b.write(val as u8),
            instr::Register::D => self.d.write(val as u8),
            instr::Register::H => self.h.write(val as u8),
            instr::Register::C => self.c.write(val as u8),
            instr::Register::E => self.e.write(val as u8),
            instr::Register::L => self.l.write(val as u8),
            instr::Register::A => self.a.write(val as u8),
            _ => {},
        }
    }

    /// The value an operand reads as.
    fn src_register(&self, r: instr::Register) -> (v: u16)
        requires
            src_ok(self@, r),
        ensures
            v == src_val(self@, r),
    {
        reveal(src_val);
        match r {
            instr::Register::NN => self.ir.n16(),
            instr::Register::N => self.ir.n8() as u16,
            instr::Register::NE => self.ir.e() as u16,
            instr::Register::A => self.a.val() as u16,
            instr::Register::B => self.b.val() as u16,
            instr::Register::C => self.c.val() as u16,
            instr::Register::D => self.d.val() as u16,
            instr::Register::E => self.e.val() as u16,
            instr::Register::H => self.h.val() as u16,
            instr::Register::L => self.l.val() as u16,
            instr::Register::PC => self.pc,
            instr::Register::BC => self.bc().val(),
            instr::Register::DE => self.de().val(),
            instr::Register::SP => self.sp,
            instr::Register::HL => self.hl().val(),
            instr::Register::Memory => self.data_bus.read(&self.mem) as u16,
            _ => 0,
        }
    }

    /// Fetches an operand byte at PC into the instruction.
    fn handle_fetch(&mut self, f: Fetch)
        ensures
            final(self)@ == fetch_op_spec(old(self)@, f),
    {
        reveal(fetch_op_spec);
        match f {
            Fetch::NnLo => {
                let val = self.fetch();
                self.ir.set_n16_lo(val);
            },
            Fetch::NnHi => {
                let val = self.fetch();
                self.ir.set_n16_hi(val);
            },
            Fetch::N => {
                let val = self.fetch();
                self.ir.set_n8(val);
            },
            Fetch::E => {
                let val = self.fetch() as i8;
                self.ir.set_e(val);
            },
        }
    }

    fn handle_halt(&mut self)
        ensures
            final(self)@ == (CpuState { halt: true, ..old(self)@ }),
    {
        self.halt = true;
    }

    fn handle_stop(&mut self)
        ensures
            final(self)@ == (CpuState { stop: true, ..old(self)@ }),
    {
        self.stop = true;
    }

    fn handle_inc(&mut self, i: instr::Inc)
        requires
            inc_ok(old(self)@, i),
        ensures
            final(self)@ == inc_spec(old(self)@, i),
    {
        reveal(inc_spec);
        match i {
            instr::Inc::Register(r) => self.handle_inc_register(r),
            instr::Inc::Memory => self.handle_inc_mem(),
        }
    }

    fn handle_dec(&mut self, d: instr::Dec)
        requires
            dec_ok(old(self)@, d),
        ensures
            final(self)@ == dec_spec(old(self)@, d),
    {
        reveal(dec_spec);
        match d {
            instr::Dec::Register(r) => self.handle_dec_register(r),
            instr::Dec::Memory => self.handle_dec_mem(),
        }
    }

    /// Increments the byte on the data bus and stores it back.
    fn handle_inc_mem(&mut self)
        ensures
            final(self)@ == inc_spec(old(self)@, instr::Inc::Memory),
    {
        reveal(inc_spec);
        let val = self.data_bus.read(&self.mem);
        let result = val.wrapping_add(1);
        if bit::check_hc(val, 1) {
            self.set_flag(Flag::H);
        } else {
            self.reset_flag(Flag::H);
        }
        if result == 0 {
            self.set_flag(Flag::Z);
        } else {
            self.reset_flag(Flag::Z);
        }
        self.reset_flag(Flag::N);
        self.store(result);
    }

    /// Decrements the byte on the data bus and stores it back.
    fn handle_dec_mem(&mut self)
        ensures
            final(self)@ == dec_spec(old(self)@, instr::Dec::Memory),
    {
        reveal(dec_spec);
        let val = self.data_bus.read(&self.mem);
        let result = val.wrapping_sub(1);
        if bit::check_b(val, 1) {
            self.set_flag(Flag::H);
        } else {
            self.reset_flag(Flag::H);
        }
        if result == 0 {
            self.set_flag(Flag::Z);
        } else {
            self.reset_flag(Flag::Z);
        }
        self.set_flag(Flag::N);
        self.store(result);
    }

#[verifier::spinoff_prover]
    fn handle_inc_register(&mut self, r: instr::Register)
        requires
            inc_ok(old(self)@, instr::Inc::Register(r)),
        ensures
            final(self)@ == inc_spec(old(self)@, instr::Inc::Register(r)),
    {
        reveal(inc_spec);
        reveal(src_val);
        match r {
            instr::Register::BC => {
                let mut w = self.bc();
                w.inc();
                self.b = w.high;
                self.c = w.low;
            },
            instr::Register::DE => {
                let mut w = self.de();
                w.inc();
                self.d = w.high;
                self.e = w.low;
            },
            instr::Register::HL => {
                let mut w = self.hl();
                w.inc();
                self.h = w.high;
                self.l = w.low;
            },
            instr::Register::SP => self.sp = self.sp.wrapping_add(1),
            _ => self.inc_byte_register(r),
        }
    }

    /// The 8-bit register case: wraps, and sets Z, N and H.
#[verifier::spinoff_prover]
    fn inc_byte_register(&mut self, r: instr::Register)
        requires
            is_byte_reg(r),
        ensures
            final(self)@ == inc_spec(old(self)@, instr::Inc::Register(r)),
    {
        reveal(inc_spec);
        let ghost s0 = self@;
        let val = self.src_register(r) as u8;
        let result = val.wrapping_add(1);
        self.load_register(r, result as u16);
        if bit::check_hc(val, 1) {
            self.set_flag(Flag::H);
        } else {
            self.reset_flag(Flag::H);
        }
        if result == 0 {
            self.set_flag(Flag::Z);
        } else {
            self.reset_flag(Flag::Z);
        }
        self.reset_flag(Flag::N);
        proof {
            lemma_set_reg_flags(s0, r, result as u16, self@.f);
        }
    }

#[verifier::spinoff_prover]
    fn handle_dec_register(&mut self, r: instr::Register)
        requires
            dec_ok(old(self)@, instr::Dec::Register(r)),
        ensures
            final(self)@ == dec_spec(old(self)@, instr::Dec::Register(r)),
    {
        reveal(dec_spec);
        reveal(src_val);
        match r {
            instr::Register::BC => {
                let mut w = self.bc();
                w.dec();
                self.b = w.high;
                self.c = w.low;
            },
            instr::Register::DE => {
                let mut w = self.de();
                w.dec();
                self.d = w.high;
                self.e = w.low;
            },
            instr::Register::HL => {
                let mut w = self.hl();
                w.dec();
                self.h = w.high;
                self.l = w.low;
            },
            instr::Register::SP => self.sp = self.sp.wrapping_sub(1),
            _ => self.dec_byte_register(r),
        }
    }

    /// The 8-bit register case: wraps, and sets Z, N and H.
#[verifier::spinoff_prover]
    fn dec_byte_register(&mut self, r: instr::Register)
        requires
            is_byte_reg(r),
        ensures
            final(self)@ == dec_spec(old(self)@, instr::Dec::Register(r)),
    {
        reveal(dec_spec);
        let ghost s0 = self@;
        let val = self.src_register(r) as u8;
        let result = val.wrapping_sub(1);
        self.load_register(r, result as u16);
        if bit::check_b(val, 1) {
            self.set_flag(Flag::H);
        } else {
            self.reset_flag(Flag::H);
        }
        if result == 0 {
            self.set_flag(Flag::Z);
        } else {
            self.reset_flag(Flag::Z);
        }
        self.set_flag(Flag::N);
        proof {
            lemma_set_reg_flags(s0, r, result as u16, self@.f);
        }
    }

    /// Puts an address on the address bus.
    fn handle_assert(&mut self, r: instr::Register)
        requires
            assert_ok(old(self)@, r),
        ensures
            final(self)@ == assert_spec(old(self)@, r),
    {
        reveal(assert_spec);
        match r {
            instr::Register::BC => {
                let val = self.bc().val();
                self.addr_bus.drive(&mut self.mem, val);
            },
            instr::Register::DE => {
                let val = self.de().val();
                self.addr_bus.drive(&mut self.mem, val);
            },
            instr::Register::HLI => {
                let val = self.hl().val();
                let mut w = self.hl();
                w.inc();
                self.h = w.high;
                self.l = w.low;
                self.addr_bus.drive(&mut self.mem, val);
            },
            instr::Register::HLD => {
                let val = self.hl().val();
                let mut w = self.hl();
                w.dec();
                self.h = w.high;
                self.l = w.low;
                self.addr_bus.drive(&mut self.mem, val);
            },
            instr::Register::HL => {
                let val = self.hl().val();
                self.addr_bus.drive(&mut self.mem, val);
            },
            instr::Register::NN => {
                let val = self.ir.n16();
                self.addr_bus.drive(&mut self.mem, val);
            },
            instr::Register::SP => {
                let sp = self.sp;
                self.addr_bus.drive(&mut self.mem, sp);
            },
            _ => {},
        }
    }

    /// Puts the address one past an operand on the address bus.
    fn handle_assert_inc(&mut self, r: instr::Register)
        requires
            instr::Register::NN == r ==> old(self)@.ir.n16_lo is Some && old(self)@.ir.n16_hi is Some,
            r == instr::Register::NN || r == instr::Register::SP,
        ensures
            final(self)@ == assert_inc_spec(old(self)@, r),
    {
        reveal(assert_inc_spec);
        match r {
            instr::Register::NN => {
                let val = self.ir.n16().wrapping_add(1);
                self.addr_bus.drive(&mut self.mem, val);
            },
            _ => {
                let val = self.sp.wrapping_add(1);
                self.addr_bus.drive(&mut self.mem, val);
            },
        }
    }

    fn handle_load(&mut self, l: instr::Load)
        requires
            load_ok(old(self)@, l),
        ensures
            final(self)@ == load_spec(old(self)@, l),
    {
        reveal(load_spec);
        match l {
            instr::Load::Register(dst, src) => {
                let val = self.src_register(src);
                self.load_register(dst, val);
            },
            instr::Load::Memory(src) => self.load_memory(src),
            instr::Load::MemoryLo(src) => self.load_memory_lo(src),
            instr::Load::MemoryHi(src) => self.load_memory_hi(src),
        }
    }

    /// Stores a register or a fetched operand at the address on the address bus.
    fn load_memory(&mut self, src: instr::Register)
        requires
            byte_src_ok(old(self)@, src),
        ensures
            final(self)@ == store_byte(old(self)@, byte_src(old(self)@, src)),
    {
        let v = match src {
            instr::Register::A => self.a.0,
            instr::Register::B => self.b.0,
            instr::Register::C => self.c.0,
            instr::Register::D => self.d.0,
            instr::Register::E => self.e.0,
            instr::Register::H => self.h.0,
            instr::Register::L => self.l.0,
            instr::Register::N => self.ir.n8(),
            instr::Register::NnLo => self.ir.n16_lo(),
            _ => self.ir.n16_hi(),
        };
        self.store(v);
    }

    /// Stores the low byte of SP at the address on the address bus.
    fn load_memory_lo(&mut self, src: instr::Register)
        requires
            src == instr::Register::SP,
        ensures
            final(self)@ == store_byte(old(self)@, (old(self)@.sp % 256) as u8),
    {
        proof {
            bit::lemma_word_fields(self.sp);
        }
        let val = (self.sp & 0xFF) as u8;
        self.store(val);
    }

    /// Stores the high byte of SP at the address on the address bus.
    fn load_memory_hi(&mut self, src: instr::Register)
        requires
            src == instr::Register::SP,
        ensures
            final(self)@ == store_byte(old(self)@, (old(self)@.sp / 256) as u8),
    {
        proof {
            bit::lemma_word_fields(self.sp);
        }
        let val = (self.sp >> 8u16) as u8;
        self.store(val);
    }

#[verifier::spinoff_prover]
    fn handle_rlc(&mut self, r: instr::Register)
        requires
            src_ok(old(self)@, r),
            dst_ok(r),
        ensures
            final(self)@ == rlc_spec(old(self)@, r),
    {
        reveal(rlc_spec);
        let ghost s0 = self@;
        let val = self.src_register(r) as u8;
        proof {
            bit::lemma_word_fields(src_val(s0, r));
            bit::lemma_byte_fields(val);
        }
        let b7 = bit::get(val, 7);
        self.set_flag_from_val(Flag::C, b7);
        let ghost f1 = self@.f;
        let result = (val << 1u8) + b7;
        self.load_register(r, result as u16);
        if r == instr::Register::A || result == 0 {
            self.reset_flag(Flag::Z);
        }
        self.reset_flag(Flag::N);
        self.reset_flag(Flag::H);
        proof {
            lemma_set_reg_flags(s0, r, result as u16, f1);
        }
    }

#[verifier::spinoff_prover]
    fn handle_rl(&mut self, r: instr::Register)
        requires
            src_ok(old(self)@, r),
            dst_ok(r),
        ensures
            final(self)@ == rl_spec(old(self)@, r),
    {
        reveal(rl_spec);
        let ghost s0 = self@;
        let val = self.src_register(r) as u8;
        proof {
            bit::lemma_word_fields(src_val(s0, r));
            bit::lemma_byte_fields(val);
        }
        let cf: u8 = if self.cf() {
            1
        } else {
            0
        };
        let b7 = bit::get(val, 7);
        self.set_flag_from_val(Flag::C, b7);
        let ghost f1 = self@.f;
        let result = (val << 1u8).wrapping_add(cf);
        self.load_register(r, result as u16);
        if r == instr::Register::A || result == 0 {
            self.reset_flag(Flag::Z);
        }
        self.reset_flag(Flag::N);
        self.reset_flag(Flag::H);
        proof {
            lemma_set_reg_flags(s0, r, result as u16, f1);
        }
    }

#[verifier::spinoff_prover]
    fn handle_rrc(&mut self, r: instr::Register)
        requires
            src_ok(old(self)@, r),
            dst_ok(r),
        ensures
            final(self)@ == rrc_spec(old(self)@, r),
    {
        reveal(rrc_spec);
        let ghost s0 = self@;
        let val = self.src_register(r) as u8;
        proof {
            bit::lemma_word_fields(src_val(s0, r));
            bit::lemma_byte_fields(val);
        }
        let b0 = bit::get(val, 0);
        proof {
            bit::lemma_byte_fields(b0);
        }
        self.set_flag_from_val(Flag::C, b0);
        let ghost f1 = self@.f;
        let result = (val >> 1u8).wrapping_add(b0 << 7u8);
        self.load_register(r, result as u16);
        if r == instr::Register::A || result == 0 {
            self.reset_flag(Flag::Z);
        }
        self.reset_flag(Flag::N);
        self.reset_flag(Flag::H);
        proof {
            lemma_set_reg_flags(s0, r, result as u16, f1);
        }
    }

#[verifier::spinoff_prover]
    fn handle_rr(&mut self, r: instr::Register)
        requires
            src_ok(old(self)@, r),
            dst_ok(r),
        ensures
            final(self)@ == rr_spec(old(self)@, r),
    {
        reveal(rr_spec);
        let ghost s0 = self@;
        let val = self.src_register(r) as u8;
        proof {
            bit::lemma_word_fields(src_val(s0, r));
            bit::lemma_byte_fields(val);
        }
        let cf: u8 = if self.cf() {
            1
        } else {
            0
        };
        proof {
            bit::lemma_byte_fields(cf);
        }
        let b0 = bit::get(val, 0);
        self.set_flag_from_val(Flag::C, b0);
        let ghost f1 = self@.f;
        let result = (val >> 1u8).wrapping_add(cf << 7u8);
        self.load_register(r, result as u16);
        if r == instr::Register::A || result == 0 {
            self.reset_flag(Flag::Z);
        }
        self.reset_flag(Flag::N);
        self.reset_flag(Flag::H);
        proof {
            lemma_set_reg_flags(s0, r, result as u16, f1);
        }
    }

    /// Decimal adjust of A.
#[verifier::spinoff_prover]
    fn handle_daa(&mut self)
        ensures
            final(self)@ == daa_spec(old(self)@),
    {
        reveal(daa_spec);
        let a = self.a.val();
        let n = self.flag(Flag::N);
        let h = self.flag(Flag::H);
        let c = self.flag(Flag::C);
        let result = daa_adjust(a, n, h, c);
        if !n && (c || a > 0x99) {
            self.set_flag(Flag::C);
        }
        self.a.write(result);
        let z: u8 = if result == 0 {
            1
        } else {
            0
        };
        self.set_flag_from_val(Flag::Z, z);
        self.reset_flag(Flag::H);
    }

    fn handle_scf(&mut self)
        ensures
            final(self)@ == op_spec(old(self)@, Op::SCF),
    {
        self.reset_flag(Flag::N);
        self.reset_flag(Flag::H);
        self.set_flag(Flag::C);
    }

    fn handle_cpl(&mut self)
        ensures
            final(self)@ == op_spec(old(self)@, Op::CPL),
    {
        let v = !self.a.val();
        self.a.write(v);
        self.set_flag(Flag::N);
        self.set_flag(Flag::H);
    }

    fn handle_ccf(&mut self)
        ensures
            final(self)@ == op_spec(old(self)@, Op::CCF),
    {
        self.reset_flag(Flag::N);
        self.reset_flag(Flag::H);
        self.invert_flag(Flag::C);
    }

    fn handle_and(&mut self, r: instr::Register)
        requires
            src_ok(old(self)@, r),
        ensures
            final(self)@ == op_spec(old(self)@, Op::AND(r)),
    {
        proof {
            bit::lemma_word_fields(src_val(self@, r));
        }
        let val = self.src_register(r) as u8;
        let result = self.a.0 & val;
        if result == 0 {
            self.set_flag(Flag::Z);
        } else {
            self.reset_flag(Flag::Z);
        }
        self.reset_flag(Flag::N);
        self.set_flag(Flag::H);
        self.reset_flag(Flag::C);
        self.a.write(result);
    }

    fn handle_xor(&mut self, r: instr::Register)
        requires
            src_ok(old(self)@, r),
        ensures
            final(self)@ == op_spec(old(self)@, Op::XOR(r)),
    {
        proof {
            bit::lemma_word_fields(src_val(self@, r));
        }
        let val = self.src_register(r) as u8;
        let result = self.a.0 ^ val;
        if result == 0 {
            self.set_flag(Flag::Z);
        } else {
            self.reset_flag(Flag::Z);
        }
        self.reset_flag(Flag::N);
        self.reset_flag(Flag::H);
        self.reset_flag(Flag::C);
        self.a.write(result);
    }

    fn handle_or(&mut self, r: instr::Register)
        requires
            src_ok(old(self)@, r),
        ensures
            final(self)@ == op_spec(old(self)@, Op::OR(r)),
    {
        proof {
            bit::lemma_word_fields(src_val(self@, r));
        }
        let val = self.src_register(r) as u8;
        let result = self.a.0 | val;
        if result == 0 {
            self.set_flag(Flag::Z);
        } else {
            self.reset_flag(Flag::Z);
        }
        self.reset_flag(Flag::N);
        self.reset_flag(Flag::H);
        self.reset_flag(Flag::C);
        self.a.write(result);
    }

    /// Whether condition `c` holds for the current flags.
    pub fn cc(&self, c: Cond) -> (r: bool)
        ensures
            r == cond_holds(self@.f, c),
    {
        match c {
            Cond::Z => self.flag(Flag::Z),
            Cond::NZ => !self.flag(Flag::Z),
            Cond::C => self.flag(Flag::C),
            Cond::NC => !self.flag(Flag::C),
        }
    }

    /// Ends the instruction early when the condition does not hold.
    fn handle_check_cond(&mut self, c: Cond)
        ensures
            final(self)@ == op_spec(old(self)@, Op::CheckCond(c)),
    {
        let cond = self.cc(c);
        if !cond {
            self.ir.complete();
        }
    }

    /// The zero test: on the low byte for 8-bit operands, on the word otherwise.
    fn check_zero(&self, a: instr::Register, b: instr::Register, result: u16) -> (r: bool)
        ensures
            r == is_zero(a, b, result),
    {
        if a.is_byte() && b.is_byte() {
            assert(result as u8 == result % 256) by {
                bit::lemma_word_fields(result);
            }
            return (result as u8) == 0;
        } else {
            return result == 0;
        }
    }

    /// Whether adding the operands carries out of the byte (8-bit operands) or
    /// out of the word.
    fn check_carry(&self, a: instr::Register, b: instr::Register) -> (r: bool)
        requires
            src_ok(self@, a),
            src_ok(self@, b),
        ensures
            r == if bytes(a, b) {
                src_val(self@, a) % 256 + src_val(self@, b) % 256 > 0xFF
            } else {
                src_val(self@, a) + src_val(self@, b) > 0xFFFF
            },
    {
        if a.is_byte() && b.is_byte() {
            let a_val = self.src_register(a);
            let b_val = self.src_register(b);
            assert(a_val as u8 == a_val % 256 && b_val as u8 == b_val % 256) by {
                bit::lemma_word_fields(a_val);
                bit::lemma_word_fields(b_val);
            }
            return bit::check_carry(a_val as u8, b_val as u8);
        } else {
            let a_val = self.src_register(a);
            let b_val = self.src_register(b);
            return bit::check_carry_word(a_val, b_val);
        }
    }

    /// The borrow test of SUB, on 8-bit operands.
    fn check_carry_sub(&self, a: instr::Register, b: instr::Register) -> (r: bool)
        requires
            src_ok(self@, a),
            src_ok(self@, b),
            bytes(a, b),
        ensures
            r == ((src_val(self@, a) + (255 - src_val(self@, b) % 256)) % 65536 < 0xFF),
    {
        let a_val = self.src_register(a);
        let b_val = self.src_register(b);
        assert((!b_val) as u8 == 255 - b_val % 256) by {
            bit::lemma_word_fields(b_val);
        }
        a_val.wrapping_add((!b_val as u8) as u16) < 0xff
    }

    /// The borrow test of SBC, on 8-bit operands, with carry `c`.
    fn check_carry_sbc(&self, a: instr::Register, b: instr::Register, c: u16) -> (r: bool)
        requires
            src_ok(self@, a),
            src_ok(self@, b),
            bytes(a, b),
        ensures
            ({
                let res = (src_val(self@, a) + (255 - src_val(self@, b) % 256)) % 65536;
                r == (res < 0xFF || (res - c + 65536) % 65536 < 0xFF)
            }),
    {
        let a_val = self.src_register(a);
        let b_val = self.src_register(b);
        assert((!b_val) as u8 == 255 - b_val % 256) by {
            bit::lemma_word_fields(b_val);
        }
        let res = a_val.wrapping_add((!b_val as u8) as u16);
        res < 0xff || res.wrapping_sub(c) < 0xff
    }

    /// The carry test of ADC, on 8-bit operands, with carry `c`.
    fn check_carry_adc(&self, a: instr::Register, b: instr::Register, c: u16) -> (r: bool)
        requires
            src_ok(self@, a),
            src_ok(self@, b),
            bytes(a, b),
        ensures
            ({
                let x = src_val(self@, a) % 256;
                let y = src_val(self@, b) % 256;
                r == (x + y > 0xFF || (x + y) % 256 + c % 256 > 0xFF)
            }),
    {
        let a_val = self.src_register(a);
        let b_val = self.src_register(b);
        assert(a_val as u8 == a_val % 256 && b_val as u8 == b_val % 256 && c as u8 == c % 256) by {
            bit::lemma_word_fields(a_val);
            bit::lemma_word_fields(b_val);
            bit::lemma_word_fields(c);
        }
        let a_val = a_val as u8;
        let b_val = b_val as u8;
        let result = a_val.wrapping_add(b_val);
        bit::check_carry(a_val, b_val) || bit::check_carry(result, c as u8)
    }

    /// Whether adding the operands carries out of the low nibble (8-bit operands)
    /// or out of bit 11.
    fn check_half_carry(&self, a: instr::Register, b: instr::Register) -> (r: bool)
        requires
            src_ok(self@, a),
            src_ok(self@, b),
        ensures
            r == if bytes(a, b) {
                (src_val(self@, a) % 256) % 16 + (src_val(self@, b) % 256) % 16 > 15
            } else {
                src_val(self@, a) % 0x1000 + src_val(self@, b) % 0x1000 > 0xFFF
            },
    {
        if a.is_byte() && b.is_byte() {
            let a_val = self.src_register(a);
            let b_val = self.src_register(b);
            assert(a_val as u8 == a_val % 256 && b_val as u8 == b_val % 256) by {
                bit::lemma_word_fields(a_val);
                bit::lemma_word_fields(b_val);
            }
            return bit::check_hc(a_val as u8, b_val as u8);
        } else {
            let a_val = self.src_register(a);
            let b_val = self.src_register(b);
            return bit::check_hc_word(a_val, b_val);
        }
    }

    /// The half-borrow test of SUB: on the low nibbles for 8-bit operands, on the
    /// low bytes otherwise.
    fn check_half_carry_sub(&self, a: instr::Register, b: instr::Register) -> (r: bool)
        requires
            src_ok(self@, a),
            src_ok(self@, b),
        ensures
            r == if bytes(a, b) {
                (src_val(self@, a) % 256) % 16 + (15 - (src_val(self@, b) % 256) % 16) < 15
            } else {
                src_val(self@, a) % 256 + (255 - src_val(self@, b) % 256) < 0xFF
            },
    {
        if a.is_byte() && b.is_byte() {
            let a_val = self.src_register(a);
            let b_val = self.src_register(b);
            assert(a_val as u8 == a_val % 256 && b_val as u8 == b_val % 256) by {
                bit::lemma_word_fields(a_val);
                bit::lemma_word_fields(b_val);
            }
            let a_val = a_val as u8;
            let b_val = b_val as u8;
            assert(a_val & 0xf == a_val % 16 && (!b_val) & 0xf == 15 - b_val % 16) by {
                bit::lemma_byte_fields(a_val);
                bit::lemma_byte_fields(b_val);
            }
            return (a_val & 0xf) + (!b_val & 0xf) < 0xf;
        } else {
            let a_val = self.src_register(a);
            let b_val = self.src_register(b);
            assert(a_val & 0xff == a_val % 256 && (!b_val) & 0xff == 255 - b_val % 256) by {
                bit::lemma_word_fields(a_val);
                bit::lemma_word_fields(b_val);
            }
            return (a_val & 0xff) + (!b_val & 0xff) < 0xff;
        }
    }

    /// The half-borrow test of SBC with carry `c`.
    fn check_half_carry_sbc(&self, a: instr::Register, b: instr::Register, c: u16) -> (r: bool)
        requires
            src_ok(self@, a),
            src_ok(self@, b),
        ensures
            r == if bytes(a, b) {
                let res = (src_val(self@, a) % 256) % 16 + (15 - (src_val(self@, b) % 256) % 16);
                res < 15 || (res - c % 256 + 256) % 256 < 15
            } else {
                let res = (src_val(self@, a) % 256 + (0xFFFF - src_val(self@, b) % 256)) % 65536;
                (res + (1 - c % 2)) % 65536 < 0xFF
            },
    {
        if a.is_byte() && b.is_byte() {
            let a_val = self.src_register(a);
            let b_val = self.src_register(b);
            assert(a_val as u8 == a_val % 256 && b_val as u8 == b_val % 256 && c as u8 == c % 256)
                by {
                bit::lemma_word_fields(a_val);
                bit::lemma_word_fields(b_val);
                bit::lemma_word_fields(c);
            }
            let a_val = a_val as u8;
            let b_val = b_val as u8;
            assert(a_val & 0xf == a_val % 16 && (!b_val) & 0xf == 15 - b_val % 16) by {
                bit::lemma_byte_fields(a_val);
                bit::lemma_byte_fields(b_val);
            }
            let res_a = (a_val & 0xf) + (!b_val & 0xf);
            return res_a < 0xf || res_a.wrapping_sub(c as u8) < 0xf;
        } else {
            let a_val = self.src_register(a);
            let b_val = self.src_register(b);
            assert(a_val & 0xff == a_val % 256 && !(b_val & 0xff) == 0xFFFF - b_val % 256 && (!c)
                & 0x1 == 1 - c % 2) by {
                bit::lemma_word_fields(a_val);
                bit::lemma_word_fields(b_val);
                bit::lemma_word_fields(c);
            }
            return (a_val & 0xff).wrapping_add(!(b_val & 0xff)).wrapping_add(!c & 0x1) < 0xff;
        }
    }

    /// The half-carry test of ADC with carry `c`.
    #[verifier::rlimit(100)]
    #[verifier::spinoff_prover]
    fn check_half_carry_adc(&self, a: instr::Register, b: instr::Register, c: u16) -> (r: bool)
        requires
            src_ok(self@, a),
            src_ok(self@, b),
        ensures
            r == if bytes(a, b) {
                let x = src_val(self@, a) % 256;
                let y = src_val(self@, b) % 256;
                x % 16 + y % 16 > 15 || ((x + y) % 256) % 16 + (c % 256) % 16 > 15
            } else {
                let x = src_val(self@, a);
                let y = src_val(self@, b);
                x % 0x1000 + y % 0x1000 > 0xFFF || ((x + y) % 65536) % 0x1000 + c % 0x1000 > 0xFFF
            },
    {
        if a.is_byte() && b.is_byte() {
            let a_val = self.src_register(a);
            let b_val = self.src_register(b);
            assert(a_val as u8 == a_val % 256 && b_val as u8 == b_val % 256 && c as u8 == c % 256)
                by {
                bit::lemma_word_fields(a_val);
                bit::lemma_word_fields(b_val);
                bit::lemma_word_fields(c);
            }
            let a_val = a_val as u8;
            let b_val = b_val as u8;
            let result = a_val.wrapping_add(b_val);
            assert(result == (a_val + b_val) % 256);
            return bit::check_hc(a_val, b_val) || bit::check_hc(result, c as u8);
        } else {
            let a_val = self.src_register(a);
            let b_val = self.src_register(b);
            let result = a_val.wrapping_add(b_val);
            let first = bit::check_hc_word(a_val, b_val);
            let second = bit::check_hc_word(result, c);
            assert(second == (((a_val + b_val) % 65536) % 0x1000 + c % 0x1000 > 0xFFF));
            return first || second;
        }
    }

    /// The half-carry test of an addition of `a` and the complement of `b`,
    /// then of carry `c`.
    #[verifier::rlimit(100)]
    #[verifier::spinoff_prover]
    fn check_half_carry_adc_sub(&self, a: instr::Register, b: instr::Register, c: u16) -> (r: bool)
        requires
            src_ok(self@, a),
            src_ok(self@, b),
        ensures
            r == if bytes(a, b) {
                let x = src_val(self@, a) % 256;
                let y = src_val(self@, b) % 256;
                x % 16 + (255 - y) % 16 > 15 || ((x + y) % 256) % 16 + (c % 256) % 16 > 15
            } else {
                let x = src_val(self@, a);
                let y = src_val(self@, b);
                x % 0x1000 + (0xFFFF - y) % 0x1000 > 0xFFF || ((x + y) % 65536) % 0x1000 + c
                    % 0x1000 > 0xFFF
            },
    {
        if a.is_byte() && b.is_byte() {
            let a_val = self.src_register(a);
            let b_val = self.src_register(b);
            assert(a_val as u8 == a_val % 256 && b_val as u8 == b_val % 256 && c as u8 == c % 256)
                by {
                bit::lemma_word_fields(a_val);
                bit::lemma_word_fields(b_val);
                bit::lemma_word_fields(c);
            }
            let a_val = a_val as u8;
            let b_val = b_val as u8;
            let result = a_val.wrapping_add(b_val);
            assert(result == (a_val + b_val) % 256);
            assert(!b_val == 255 - b_val) by (bit_vector);
            return bit::check_hc(a_val, !b_val) || bit::check_hc(result, c as u8);
        } else {
            let a_val = self.src_register(a);
            let b_val = self.src_register(b);
            let result = a_val.wrapping_add(b_val);
            assert(!b_val == 0xFFFF - b_val) by (bit_vector);
            let first = bit::check_hc_word(a_val, !b_val);
            let second = bit::check_hc_word(result, c);
            assert(second == (((a_val + b_val) % 65536) % 0x1000 + c % 0x1000 > 0xFFF));
            return first || second;
        }
    }

    fn handle_add(&mut self, a: instr::Add)
        requires
            op_ok(old(self)@, Op::Add(a)),
        ensures
            final(self)@ == op_spec(old(self)@, Op::Add(a)),
    {
        match a {
            instr::Add::Register(a, b) => self.handle_add_register(a, b),
            _ => {},
        }
    }

    fn handle_adc(&mut self, a: instr::ADC)
        requires
            op_ok(old(self)@, Op::ADC(a)),
        ensures
            final(self)@ == op_spec(old(self)@, Op::ADC(a)),
    {
        match a {
            instr::ADC::Register(a, b) => self.handle_adc_register(a, b),
            _ => {},
        }
    }

    fn handle_sub(&mut self, s: instr::Sub)
        requires
            op_ok(old(self)@, Op::Sub(s)),
        ensures
            final(self)@ == op_spec(old(self)@, Op::Sub(s)),
    {
        match s {
            instr::Sub::Register(a, b) => self.handle_sub_register(a, b),
            _ => {},
        }
    }

    fn handle_sbc(&mut self, s: instr::SBC)
        requires
            op_ok(old(self)@, Op::SBC(s)),
        ensures
            final(self)@ == op_spec(old(self)@, Op::SBC(s)),
    {
        match s {
            instr::SBC::Register(a, b) => self.handle_sbc_register(a, b),
            _ => {},
        }
    }

    /// Sets the H, C and (unless the target is HL) Z flags, and resets N or sets it.
    fn arith_flags(&mut self, hc: bool, cy: bool, r1: instr::Register, z: bool, n: bool)
        ensures
            final(self)@ == with_f(old(self)@, flags_after(old(self)@.f, hc, cy, r1, z, n)),
    {
        if hc {
            self.set_flag(Flag::H);
        } else {
            self.reset_flag(Flag::H);
        }
        if cy {
            self.set_flag(Flag::C);
        } else {
            self.reset_flag(Flag::C);
        }
        if r1 != instr::Register::HL {
            if z {
                self.set_flag(Flag::Z);
            } else {
                self.reset_flag(Flag::Z);
            }
        }
        if n {
            self.set_flag(Flag::N);
        } else {
            self.reset_flag(Flag::N);
        }
    }

    #[verifier::rlimit(100)]
    #[verifier::spinoff_prover]
    fn handle_add_register(&mut self, r1: instr::Register, r2: instr::Register)
        requires
            arith_ok(old(self)@, r1, r2),
        ensures
            final(self)@ == add_spec(old(self)@, r1, r2),
    {
        reveal(add_spec);
        let ghost s0 = self@;
        let a = self.src_register(r1);
        let result: u16;
        if r2 == instr::Register::NE {
            let e = self.ir.e();
            result = a.wrapping_add_signed(e as i16);
        } else {
            let b = self.src_register(r2);
            result = a.wrapping_add(b);
            let hc = self.check_half_carry(r1, r2);
            let cy = self.check_carry(r1, r2);
            let z = self.check_zero(r1, r2, result);
            self.arith_flags(hc, cy, r1, z, false);
        }
        assert(result == add_value(s0, r1, r2));
        assert(self@ == with_f(s0, add_flags(s0, r1, r2)));
        self.load_register(r1, result);
    }

#[verifier::spinoff_prover]
    fn handle_adc_register(&mut self, r1: instr::Register, r2: instr::Register)
        requires
            arith_ok(old(self)@, r1, r2),
            r2 == instr::Register::NE || bytes(r1, r2),
        ensures
            final(self)@ == adc_spec(old(self)@, r1, r2),
    {
        reveal(adc_spec);
        let ghost s0 = self@;
        let a = self.src_register(r1);
        let c: u16 = if self.cf() {
            1
        } else {
            0
        };
        let result: u16;
        if r2 == instr::Register::NE {
            let e = self.ir.e();
            result = a.wrapping_add_signed(e as i16);
        } else {
            result = self.adc_bytes(r1, r2, a, c);
        }
        assert(result == adc_value(s0, r1, r2));
        assert(self@ == with_f(s0, adc_flags(s0, r1, r2)));
        self.load_register(r1, result);
    }

    /// ADC on 8-bit operands: sets the flags and returns the sum with the carry.
#[verifier::spinoff_prover]
    fn adc_bytes(&mut self, r1: instr::Register, r2: instr::Register, a: u16, c: u16) -> (result:
        u16)
        requires
            arith_ok(old(self)@, r1, r2),
            bytes(r1, r2),
            r2 != instr::Register::NE,
            a == src_val(old(self)@, r1),
            c == carry_in(old(self)@),
        ensures
            result == adc_value(old(self)@, r1, r2),
            final(self)@ == with_f(old(self)@, adc_flags(old(self)@, r1, r2)),
    {
        let ghost s0 = self@;
        proof {
            lemma_byte_src_small(s0, r1);
            lemma_byte_src_small(s0, r2);
        }
        let b = self.src_register(r2).wrapping_add(c);
        let result = a.wrapping_add(b);
        assert(result == adc_value(s0, r1, r2));
        let hc = self.check_half_carry_adc(r1, r2, c);
        let cy = self.check_carry_adc(r1, r2, c);
        let z = self.check_zero(r1, r2, result);
        proof {
            let y = src_val(s0, r2);
            lemma_nibble_carry(a, y, c);
            assert(hc == ((a % 256) % 16 + (y % 256) % 16 + c > 15));
            assert(cy == ((a % 256) + (y % 256) + c > 0xFF));
        }
        self.arith_flags(hc, cy, r1, z, false);
        result
    }

    #[verifier::rlimit(100)]
    #[verifier::spinoff_prover]
    fn handle_sub_register(&mut self, r1: instr::Register, r2: instr::Register)
        requires
            arith_ok(old(self)@, r1, r2),
            r2 == instr::Register::NE || bytes(r1, r2),
        ensures
            final(self)@ == sub_spec(old(self)@, r1, r2),
    {
        reveal(sub_spec);
        let ghost s0 = self@;
        let a = self.src_register(r1);
        let result: u16;
        if r2 == instr::Register::NE {
            let e = self.ir.e();
            result = a.wrapping_add_signed(e as i16);
        } else {
            proof {
                lemma_byte_src_small(s0, r1);
                lemma_byte_src_small(s0, r2);
            }
            let b = self.src_register(r2);
            result = a.wrapping_sub(b);
            let hc = self.check_half_carry_sub(r1, r2);
            let cy = self.check_carry_sub(r1, r2);
            let z = self.check_zero(r1, r2, result);
            self.arith_flags(hc, cy, r1, z, true);
        }
        assert(result == sub_value(s0, r1, r2));
        assert(self@ == with_f(s0, sub_flags(s0, r1, r2)));
        self.load_register(r1, result);
    }

    #[verifier::rlimit(100)]
    #[verifier::spinoff_prover]
    fn handle_sbc_register(&mut self, r1: instr::Register, r2: instr::Register)
        requires
            arith_ok(old(self)@, r1, r2),
            bytes(r1, r2),
        ensures
            final(self)@ == sbc_spec(old(self)@, r1, r2),
    {
        reveal(sbc_spec);
        let ghost s0 = self@;
        let a = self.src_register(r1);
        let c: u16 = if self.cf() {
            1
        } else {
            0
        };
        proof {
            lemma_byte_src_small(s0, r1);
        }
        let b = self.src_register(r2);
        let result = a.wrapping_sub(b).wrapping_sub(c);
        let hc = self.check_half_carry_sbc(r1, r2, c);
        let cy = self.check_carry_sbc(r1, r2, c);
        assert(result == sbc_value(s0, r1, r2));
        let z = self.check_zero(r1, r2, result);
        proof {
            lemma_sbc_flags(s0, r1, r2, hc, cy, z);
        }
        self.arith_flags(hc, cy, r1, z, true);
        assert(result == sbc_value(s0, r1, r2));
        assert(self@ == with_f(s0, sbc_flags(s0, r1, r2)));
        self.load_register(r1, result);
    }

    /// Runs one operation of a step.
    fn execute_op(&mut self, op: Op) -> (r: Result<(), Error>)
        requires
            op_ok(old(self)@, op),
        ensures
            r is Ok,
            final(self)@ == op_spec(old(self)@, op),
    {
        match op {
            Op::Stop => self.handle_stop(),
            Op::Halt => self.handle_halt(),
            Op::Add(a) => self.handle_add(a),
            Op::ADC(a) => self.handle_adc(a),
            Op::Sub(s) => self.handle_sub(s),
            Op::SBC(s) => self.handle_sbc(s),
            Op::AND(r) => self.handle_and(r),
            Op::XOR(r) => self.handle_xor(r),
            Op::OR(r) => self.handle_or(r),
            Op::Fetch(f) => self.handle_fetch(f),
            Op::Load(l) => self.handle_load(l),
            Op::Assert(r) => self.handle_assert(r),
            Op::AssertInc(r) => self.handle_assert_inc(r),
            Op::Inc(i) => self.handle_inc(i),
            Op::Dec(d) => self.handle_dec(d),
            Op::RLC(r) => self.handle_rlc(r),
            Op::RL(r) => self.handle_rl(r),
            Op::RRC(r) => self.handle_rrc(r),
            Op::RR(r) => self.handle_rr(r),
            Op::DAA => self.handle_daa(),
            Op::SCF => self.handle_scf(),
            Op::CPL => self.handle_cpl(),
            Op::CCF => self.handle_ccf(),
            Op::CheckCond(c) => self.handle_check_cond(c),
            _ => {},
        }
        Ok(())
    }

    /// Whether operand `r` can be read now (an immediate only once fetched).
    fn src_ready(&self, r: instr::Register) -> (b: bool)
        ensures
            b == src_ok(self@, r),
    {
        match r {
            instr::Register::NN => self.ir.n16_lo.is_some() && self.ir.n16_hi.is_some(),
            instr::Register::N => self.ir.n8.is_some(),
            instr::Register::NE => self.ir.e.is_some(),
            instr::Register::A | instr::Register::B | instr::Register::C | instr::Register::D
            | instr::Register::E | instr::Register::H | instr::Register::L | instr::Register::PC
            | instr::Register::BC | instr::Register::DE | instr::Register::SP | instr::Register::HL
            | instr::Register::Memory => true,
            _ => false,
        }
    }

    /// Whether a byte source of a memory store can be read now.
    fn byte_src_ready(&self, r: instr::Register) -> (b: bool)
        ensures
            b == byte_src_ok(self@, r),
    {
        match r {
            instr::Register::A | instr::Register::B | instr::Register::C | instr::Register::D
            | instr::Register::E | instr::Register::H | instr::Register::L => true,
            instr::Register::N => self.ir.n8.is_some(),
            instr::Register::NnLo => self.ir.n16_lo.is_some(),
            instr::Register::NnHi => self.ir.n16_hi.is_some(),
            _ => false,
        }
    }

    /// Whether an arithmetic operation on `r1` and `r2` can run now.
    fn arith_ready(&self, r1: instr::Register, r2: instr::Register) -> (b: bool)
        ensures
            b == arith_ok(self@, r1, r2),
    {
        self.src_ready(r1) && self.src_ready(r2) && writable(r1)
    }

    /// Whether a load can run now.
    fn load_ready(&self, l: instr::Load) -> (b: bool)
        ensures
            b == load_ok(self@, l),
    {
        match l {
            instr::Load::Register(dst, src) => self.src_ready(src) && writable(dst),
            instr::Load::Memory(src) => self.byte_src_ready(src),
            instr::Load::MemoryLo(src) => matches!(src, instr::Register::SP),
            instr::Load::MemoryHi(src) => matches!(src, instr::Register::SP),
        }
    }

    /// Whether an address can be put on the bus now (HL must not step past
    /// either end).
    fn assert_ready(&self, r: instr::Register) -> (b: bool)
        ensures
            b == assert_ok(self@, r),
    {
        match r {
            instr::Register::BC | instr::Register::DE | instr::Register::HL
            | instr::Register::SP => true,
            instr::Register::HLI => self.hl().val() < 0xFFFF,
            instr::Register::HLD => self.hl().val() > 0,
            instr::Register::NN => self.ir.n16_lo.is_some() && self.ir.n16_hi.is_some(),
            _ => false,
        }
    }

    /// Whether the address after an operand can be put on the bus now.
    fn assert_inc_ready(&self, r: instr::Register) -> (b: bool)
        ensures
            b == assert_inc_ok(self@, r),
    {
        match r {
            instr::Register::NN => self.ir.n16_lo.is_some() && self.ir.n16_hi.is_some(),
            instr::Register::SP => true,
            _ => false,
        }
    }

    /// Whether an increment can run now (a register pair must be below 0xFFFF).
    fn inc_ready(&self, i: instr::Inc) -> (b: bool)
        ensures
            b == inc_ok(self@, i),
    {
        match i {
            instr::Inc::Memory => true,
            instr::Inc::Register(r) => match r {
                instr::Register::BC => self.bc().val() < 0xFFFF,
                instr::Register::DE => self.de().val() < 0xFFFF,
                instr::Register::HL => self.hl().val() < 0xFFFF,
                instr::Register::SP => true,
                _ => byte_reg(r),
            },
        }
    }

    /// Whether a decrement can run now (a register pair must not be 0).
    fn dec_ready(&self, d: instr::Dec) -> (b: bool)
        ensures
            b == dec_ok(self@, d),
    {
        match d {
            instr::Dec::Memory => true,
            instr::Dec::Register(r) => match r {
                instr::Register::BC => self.bc().val() > 0,
                instr::Register::DE => self.de().val() > 0,
                instr::Register::HL => self.hl().val() > 0,
                instr::Register::SP => true,
                _ => byte_reg(r),
            },
        }
    }

    /// Whether operation `op` can run in the current state.
    fn op_ready(&self, op: Op) -> (b: bool)
        ensures
            b == op_ok(self@, op),
    {
        match op {
            Op::Stop | Op::Halt | Op::DAA | Op::SCF | Op::CPL | Op::CCF | Op::CheckCond(_)
            | Op::Fetch(_) => true,
            Op::Add(instr::Add::Register(r1, r2)) => self.arith_ready(r1, r2),
            Op::ADC(instr::ADC::Register(r1, r2)) => self.arith_ready(r1, r2) && (matches!(
                r2,
                instr::Register::NE
            ) || (r1.is_byte() && r2.is_byte())),
            Op::Sub(instr::Sub::Register(r1, r2)) => self.arith_ready(r1, r2) && (matches!(
                r2,
                instr::Register::NE
            ) || (r1.is_byte() && r2.is_byte())),
            Op::SBC(instr::SBC::Register(r1, r2)) => self.arith_ready(r1, r2) && r1.is_byte()
                && r2.is_byte(),
            Op::AND(r) | Op::XOR(r) | Op::OR(r) => self.src_ready(r),
            Op::Load(l) => self.load_ready(l),
            Op::Assert(r) => self.assert_ready(r),
            Op::AssertInc(r) => self.assert_inc_ready(r),
            Op::Inc(i) => self.inc_ready(i),
            Op::Dec(d) => self.dec_ready(d),
            Op::RLC(r) | Op::RL(r) | Op::RRC(r) | Op::RR(r) => self.src_ready(r) && writable(r),
            _ => false,
        }
    }

    /// Runs the next pending step of the current instruction, completing the
    /// instruction when no step is left or the step has no operations.
    pub fn execute(&mut self) -> (r: Result<(), Error>)
        requires
            execute_ok(old(self)@),
        ensures
            r is Ok,
            final(self)@ == execute_spec(old(self)@),
    {
        self.try_execute()
    }

    /// `execute`, checking before each operation that it can run: an operation
    /// that cannot (one this processor does not implement, or a register pair
    /// that would step past either end) stops the step with an error, after the
    /// operations before it have run.
    pub fn try_execute(&mut self) -> (r: Result<(), Error>)
        ensures
            r is Ok <==> execute_ok(old(self)@),
            r is Ok ==> final(self)@ == execute_spec(old(self)@),
    {
        if self.ir.done() {
            return Ok(());
        }
        let ghost s0 = self@;
        let n = self.ir.steps.len();
        let mut k: usize = 0;
        while k < n && self.ir.steps[k].is_done()
            invariant
                self@ == s0,
                n == self.ir.steps@.len(),
                s0.ir.steps_done == self.ir.steps@.map_values(|st: instr::Step| st.done),
                0 <= k <= n,
                first_pending(s0.ir.steps_done, 0) == first_pending(s0.ir.steps_done, k as int),
            decreases n - k,
        {
            k += 1;
        }
        let mut ex: Vec<Op> = Vec::new();
        if k < n {
            let ops = self.ir.steps[k].ops();
            let mut i: usize = 0;
            while i < ops.len()
                invariant
                    0 <= i <= ops@.len(),
                    ex@ == ops@.take(i as int),
                decreases ops.len() - i,
            {
                ex.push(ops[i]);
                i += 1;
            }
            assert(ex@ == ops@);
            self.ir.set_step_done(k);
        }
        let ghost t = self@;
        assert(begin_step(s0) == (t, ex@));
        if ex.len() == 0 {
            self.ir.complete();
        } else {
            assert(execute_spec(s0) == run_ops(t, ex@));
            assert(execute_ok(s0) == ops_ok(t, ex@));
            assert(ex@.skip(0) == ex@);
            let mut i: usize = 0;
            while i < ex.len()
                invariant
                    0 <= i <= ex@.len(),
                    ex@.len() > 0,
                    execute_spec(old(self)@) == run_ops(t, ex@),
                    execute_ok(old(self)@) == ops_ok(t, ex@),
                    run_ops(self@, ex@.skip(i as int)) == run_ops(t, ex@),
                    ops_ok(self@, ex@.skip(i as int)) == ops_ok(t, ex@),
                decreases ex.len() - i,
            {
                let op = ex[i];
                let ghost p = self@;
                proof {
                    assert(ex@.skip(i as int)[0] == op);
                    assert(ex@.skip(i as int).drop_first() == ex@.skip(i + 1));
                }
                if !self.op_ready(op) {
                    return Err(Error::Unknown);
                }
                match self.execute_op(op) {
                    Ok(()) => {},
                    Err(e) => {
                        return Err(e);
                    },
                }
                let check = match op {
                    Op::CheckCond(_) => true,
                    _ => false,
                };
                if check && self.ir.done() {
                    assert(run_ops(p, ex@.skip(i as int)) == self@);
                    return Ok(());
                }
                i += 1;
            }
        }
        Ok(())
    }

    /// One machine cycle: nothing while stopped or halted; otherwise the current
    /// instruction's next step runs, and once the instruction is done the next
    /// opcode is fetched and decoded (an eager one runs its first step at once).
    pub fn tick(&mut self) -> (r: Result<(), Error>)
        requires
            tick_ok(old(self)@),
        ensures
            r is Ok,
            final(self)@ == tick_spec(old(self)@),
    {
        self.try_tick()
    }

    /// `tick`, checking each operation before it runs and the next opcode
    /// before it is decoded: the cycle fails with an error, part done, exactly
    /// where `tick` may not be called.
    pub fn try_tick(&mut self) -> (r: Result<(), Error>)
        ensures
            r is Ok <==> tick_ok(old(self)@),
            r is Ok ==> final(self)@ == tick_spec(old(self)@),
    {
        if self.stop {
            return Ok(());
        }
        if self.halt {
            return Ok(());
        }
        match self.try_execute() {
            Ok(()) => {},
            Err(e) => {
                return Err(e);
            },
        }
        if self.ir.done() {
            let opcode = self.fetch();
            if !decodable(opcode) {
                return Err(Error::Unknown);
            }
            self.ir = Instruction::decode(opcode);
            if self.ir.eager() {
                return self.try_execute();
            }
        }
        Ok(())
    }
}

impl CPU {
    /// A conditional absolute jump whose condition fails: the target word is
    /// skipped. (This processor does not jump yet, so the condition must fail.)
    fn jp_cond(&mut self, c: Cond, r: R16) -> (taken: bool)
        requires
            !cond_holds(old(self)@.f, c),
        ensures
            !taken,
            final(self)@ == fetch_spec(fetch_spec(old(self)@)),
    {
        let taken = self.cc(c);
        if !taken {
            let _ = self.fetch_word();
        }
        taken
    }

    /// A conditional call whose condition fails: nothing happens. (This
    /// processor does not call yet, so the condition must fail.)
    fn call_cond(&mut self, c: Cond) -> (taken: bool)
        requires
            !cond_holds(old(self)@.f, c),
        ensures
            !taken,
            final(self)@ == old(self)@,
    {
        self.cc(c)
    }

    /// A conditional return whose condition fails: nothing happens. (This
    /// processor does not return yet, so the condition must fail.)
    fn ret_cond(&mut self, c: Cond) -> (taken: bool)
        requires
            !cond_holds(old(self)@.f, c),
        ensures
            !taken,
            final(self)@ == old(self)@,
    {
        self.cc(c)
    }

    /// Moves PC by `w`, wrapping.
    fn jr_word(&mut self, w: u16)
        ensures
            final(self)@ == (CpuState { pc: ((old(self)@.pc + w) % 65536) as u16, ..old(self)@ }),
    {
        self.pc = self.pc.wrapping_add(w);
    }

    /// A copy of the register pair `r` (BC, DE or HL).
    fn reg_word(&self, r: R16) -> (w: Word)
        requires
            r == R16::BC || r == R16::DE || r == R16::HL,
        ensures
            w.val_spec() == r16_val(self@, r),
    {
        match r {
            R16::DE => self.de(),
            R16::BC => self.bc(),
            _ => self.hl(),
        }
    }

    /// A copy of the 8-bit register `r` (not the memory operand or an immediate).
    fn reg(&self, r: R8) -> (v: Register)
        requires
            r != R8::HL && r != R8::N8,
        ensures
            v.0 == r8_val(self@, r),
    {
        match r {
            R8::A => self.a,
            R8::B => self.b,
            R8::C => self.c,
            R8::D => self.d,
            R8::E => self.e,
            R8::H => self.h,
            _ => self.l,
        }
    }

    /// Adds one to a register pair, SP or PC; a pair must not be 0xFFFF.
    fn inc_r16(&mut self, r: R16)
        requires
            r16_step_ok(old(self)@, r, true),
        ensures
            final(self)@ == r16_set(old(self)@, r, (r16_val(old(self)@, r) + 1) % 65536),
    {
        match r {
            R16::DE => {
                let mut w = self.de();
                w.inc();
                self.d = w.high;
                self.e = w.low;
            },
            R16::BC => {
                let mut w = self.bc();
                w.inc();
                self.b = w.high;
                self.c = w.low;
            },
            R16::HL => {
                let mut w = self.hl();
                w.inc();
                self.h = w.high;
                self.l = w.low;
            },
            R16::SP => {
                self.sp = self.sp.wrapping_add(1);
            },
            _ => {
                self.pc = self.pc.wrapping_add(1);
            },
        }
    }

    /// Decrements a 16-bit operand.
    fn dec(&mut self, d: DEC)
        requires
            d is R16,
            r16_step_ok(old(self)@, d->R16_0, false),
        ensures
            final(self)@ == r16_set(old(self)@, d->R16_0, r16_val(old(self)@, d->R16_0) - 1),
    {
        match d {
            DEC::R16(r) => self.dec_r16(r),
            DEC::R8(_) => {},
        }
    }

    /// Subtracts one from a register pair, SP or PC, none of which may be 0.
    fn dec_r16(&mut self, r: R16)
        requires
            r16_step_ok(old(self)@, r, false),
        ensures
            final(self)@ == r16_set(old(self)@, r, r16_val(old(self)@, r) - 1),
    {
        match r {
            R16::DE | R16::BC | R16::HL => {
                let mut w = self.reg_word(r);
                w.dec();
                match r {
                    R16::DE => {
                        self.d = w.high;
                        self.e = w.low;
                    },
                    R16::BC => {
                        self.b = w.high;
                        self.c = w.low;
                    },
                    _ => {
                        self.h = w.high;
                        self.l = w.low;
                    },
                }
            },
            R16::SP => self.sp -= 1,
            _ => self.pc -= 1,
        }
    }
}

/// The value of a 16-bit operand.
pub open spec fn r16_val(s: CpuState, r: R16) -> int {
    match r {
        R16::BC => word_of(s.b, s.c) as int,
        R16::DE => word_of(s.d, s.e) as int,
        R16::HL => word_of(s.h, s.l) as int,
        R16::SP => s.sp as int,
        R16::PC => s.pc as int,
        R16::AF => word_of(s.a, s.f) as int,
        R16::N16 => 0,
    }
}

/// The state with a 16-bit operand (a pair, SP or PC) set to `v`.
pub open spec fn r16_set(s: CpuState, r: R16, v: int) -> CpuState {
    let hi = (v / 256) as u8;
    let lo = (v % 256) as u8;
    match r {
        R16::BC => CpuState { b: hi, c: lo, ..s },
        R16::DE => CpuState { d: hi, e: lo, ..s },
        R16::HL => CpuState { h: hi, l: lo, ..s },
        R16::SP => CpuState { sp: v as u16, ..s },
        R16::PC => CpuState { pc: v as u16, ..s },
        _ => s,
    }
}

/// Whether a 16-bit operand can be stepped: a pair, SP or PC that does not
/// wrap, except that incrementing SP and PC wraps.
pub open spec fn r16_step_ok(s: CpuState, r: R16, up: bool) -> bool {
    match r {
        R16::BC | R16::DE | R16::HL => if up {
            r16_val(s, r) < 0xFFFF
        } else {
            r16_val(s, r) > 0
        },
        R16::SP | R16::PC => up || r16_val(s, r) > 0,
        _ => false,
    }
}

/// The value of an 8-bit register.
pub open spec fn r8_val(s: CpuState, r: R8) -> u8 {
    match r {
        R8::A => s.a,
        R8::B => s.b,
        R8::C => s.c,
        R8::D => s.d,
        R8::E => s.e,
        R8::H => s.h,
        R8::L => s.l,
        _ => 0,
    }
}

/// The first step at or after `k` that has not run, or the number of steps when
/// every one from `k` on has.
pub open spec fn first_pending(done: Seq<bool>, k: int) -> int
    decreases done.len() - k,
{
    if k < 0 || k >= done.len() {
        done.len() as int
    } else if !done[k] {
        k
    } else {
        first_pending(done, k + 1)
    }
}

/// The state after running `ops` in order, stopping right after a condition
/// check that ended the instruction.
pub open spec fn run_ops(s: CpuState, ops: Seq<Op>) -> CpuState
    decreases ops.len(),
{
    if ops.len() == 0 {
        s
    } else {
        let t = op_spec(s, ops[0]);
        if ops[0] is CheckCond && t.ir.done {
            t
        } else {
            run_ops(t, ops.drop_first())
        }
    }
}

/// Every operation that `run_ops` reaches goes through.
pub open spec fn ops_ok(s: CpuState, ops: Seq<Op>) -> bool
    decreases ops.len(),
{
    ops.len() == 0 || (op_ok(s, ops[0]) && {
        let t = op_spec(s, ops[0]);
        (ops[0] is CheckCond && t.ir.done) || ops_ok(t, ops.drop_first())
    })
}

/// The state with the next pending step marked as run, and that step's
/// operations (none when every step has run).
pub open spec fn begin_step(s: CpuState) -> (CpuState, Seq<Op>) {
    let k = first_pending(s.ir.steps_done, 0);
    if k < s.ir.steps_done.len() && k < s.ir.steps.len() {
        (
            CpuState {
                ir: InstrView { steps_done: s.ir.steps_done.update(k, true), ..s.ir },
                ..s
            },
            s.ir.steps[k],
        )
    } else {
        (s, Seq::empty())
    }
}

/// What `execute` does: nothing once the instruction is done; otherwise the
/// next pending step runs, and a step with no operations (or none left) ends
/// the instruction.
pub open spec fn execute_spec(s: CpuState) -> CpuState {
    if s.ir.done {
        s
    } else {
        let (t, ops) = begin_step(s);
        if ops.len() == 0 {
            CpuState { ir: InstrView { done: true, ..t.ir }, ..t }
        } else {
            run_ops(t, ops)
        }
    }
}

/// The states on which `execute` goes through.
pub open spec fn execute_ok(s: CpuState) -> bool {
    s.ir.done || {
        let (t, ops) = begin_step(s);
        ops_ok(t, ops)
    }
}

/// The state after fetching the next opcode and decoding it.
pub open spec fn next_instruction(s: CpuState) -> CpuState {
    CpuState { ir: decoded_view(fetched(s)), ..fetch_spec(s) }
}

/// What `tick` does.
pub open spec fn tick_spec(s: CpuState) -> CpuState {
    if s.stop || s.halt {
        s
    } else {
        let t = execute_spec(s);
        if !t.ir.done {
            t
        } else {
            let u = next_instruction(t);
            if u.ir.eager {
                execute_spec(u)
            } else {
                u
            }
        }
    }
}

/// The states on which `tick` goes through: the step runs, and a finished
/// instruction is followed by a decodable opcode.
pub open spec fn tick_ok(s: CpuState) -> bool {
    s.stop || s.halt || (execute_ok(s) && {
        let t = execute_spec(s);
        !t.ir.done || (decoded(fetched(t)) is Some && {
            let u = next_instruction(t);
            !u.ir.eager || execute_ok(u)
        })
    })
}

/// Once an instruction is done, `execute` changes nothing.
pub proof fn lemma_execute_done_is_noop(s: CpuState)
    requires
        s.ir.done,
    ensures
        execute_ok(s),
        execute_spec(s) == s,
{
}

/// A stopped or halted processor ticks without changing.
pub proof fn lemma_tick_stopped_is_noop(s: CpuState)
    requires
        s.stop || s.halt,
    ensures
        tick_ok(s),
        tick_spec(s) == s,
{
}

/// An instruction whose steps have all run is marked done by the next `execute`.
pub proof fn lemma_execute_completes(s: CpuState)
    requires
        forall|k: int| 0 <= k < s.ir.steps_done.len() ==> s.ir.steps_done[k],
    ensures
        execute_ok(s),
        execute_spec(s).ir.done,
{
    lemma_first_pending_all_done(s.ir.steps_done, 0);
}

proof fn lemma_first_pending_all_done(done: Seq<bool>, k: int)
    requires
        0 <= k,
        forall|j: int| 0 <= j < done.len() ==> done[j],
    ensures
        first_pending(done, k) == done.len(),
    decreases done.len() - k,
{
    if k < done.len() {
        lemma_first_pending_all_done(done, k + 1);
    }
}

} // verus!
