use vstd::prelude::*;

use super::instr::{
    self, cond_of, decoded, decoded_view, word_of, Cond, Error as IError, Fetch, InstrView,
    Instruction, Op,
};
use crate::memory::{self, Accessor, AddressBus, DataBus, Memory};
use crate::utils::bit;

verus! {

pub const MASTER_CLOCK_FREQ: u64 = 4_194_304;

pub const T_CYCLE_PRD_NS: u64 = 238;

pub const DIV_CLOCK_FREQ: u64 = 16_384;

pub const DIV_CLOCK_PRD_NS: u64 = 61035;

pub const CYCLES_PER_DIV_TICK: u64 = 256;

pub const SYSTEM_CLOCK: u64 = 1_048_576;

/// Why the processor could not go on.
#[derive(Debug, Clone, Copy, PartialEq, Eq, Structural)]
pub enum Error {
    InstructionError(IError),
    Unknown,
}

impl From<IError> for Error {
    fn from(e: IError) -> (r: Error) {
        Error::InstructionError(e)
    }
}

impl vstd::std_specs::convert::FromSpecImpl<IError> for Error {
    open spec fn obeys_from_spec() -> bool {
        true
    }

    open spec fn from_spec(e: IError) -> Error {
        Error::InstructionError(e)
    }
}

/// A flag of the F register.
#[derive(Debug, Clone, Copy, PartialEq, Eq, Structural)]
pub enum Flag {
    Z,
    N,
    H,
    C,
}

/// The bit of F that holds a flag.
pub open spec fn flag_pos(fl: Flag) -> u8 {
    match fl {
        Flag::Z => 7,
        Flag::N => 6,
        Flag::H => 5,
        Flag::C => 4,
    }
}

/// Whether flag `fl` is set in `f`.
pub open spec fn flag_of(f: u8, fl: Flag) -> bool {
    (f >> flag_pos(fl)) & 1 == 1
}

/// `f` with flag `fl` set to `v` and every other bit kept.
pub open spec fn with_flag(f: u8, fl: Flag, v: bool) -> u8 {
    if v {
        f | (1u8 << flag_pos(fl))
    } else {
        f & !(1u8 << flag_pos(fl))
    }
}

/// Whether condition `c` holds for the flags `f`.
pub open spec fn cond_holds(f: u8, c: Cond) -> bool {
    match c {
        Cond::Z => flag_of(f, Flag::Z),
        Cond::NZ => !flag_of(f, Flag::Z),
        Cond::C => flag_of(f, Flag::C),
        Cond::NC => !flag_of(f, Flag::C),
    }
}

/// A flag written reads back as written, and the other flags keep their values.
pub proof fn lemma_with_flag(f: u8, fl: Flag, v: bool, other: Flag)
    ensures
        flag_of(with_flag(f, fl, v), fl) == v,
        other != fl ==> flag_of(with_flag(f, fl, v), other) == flag_of(f, other),
        with_flag(f, fl, v) % 16 == f % 16,
{
    let p = flag_pos(fl);
    let q = flag_pos(other);
    assert(4 <= p < 8 && 4 <= q < 8);
    assert(((f | (1u8 << p)) >> p) & 1 == 1 && (q != p ==> ((f | (1u8 << p)) >> q) & 1 == (f
        >> q) & 1) && (f | (1u8 << p)) % 16 == f % 16 && ((f & !(1u8 << p)) >> p) & 1 == 0 && (q
        != p ==> ((f & !(1u8 << p)) >> q) & 1 == (f >> q) & 1) && (f & !(1u8 << p)) % 16 == f
        % 16) by (bit_vector)
        requires
            4 <= p < 8,
            q < 8,
    ;
}

/// Interrupt sources, highest priority first.
#[derive(Debug, Clone, Copy, PartialEq, Eq, Structural)]
pub enum Interrupt {
    VBlank,
    STAT,
    Timer,
    Serial,
    Joypad,
}

impl Interrupt {
    /// The address of the interrupt's handler.
    pub fn addr(&self) -> (r: u8)
        ensures
            r == match self {
                Interrupt::VBlank => 0x40u8,
                Interrupt::STAT => 0x48u8,
                Interrupt::Timer => 0x50u8,
                Interrupt::Serial => 0x58u8,
                Interrupt::Joypad => 0x60u8,
            },
    {
        match self {
            Interrupt::VBlank => 0x40,
            Interrupt::STAT => 0x48,
            Interrupt::Timer => 0x50,
            Interrupt::Serial => 0x58,
            Interrupt::Joypad => 0x60,
        }
    }
}

/// An 8-bit register.
#[derive(Debug, Clone, Copy, PartialEq, Eq, Structural)]
pub struct Register(pub u8);

impl Register {
    pub fn new() -> (r: Register)
        ensures
            r.0 == 0,
    {
        Register(0)
    }

    pub fn with_val(v: u8) -> (r: Register)
        ensures
            r.0 == v,
    {
        Register(v)
    }

    pub fn val(&self) -> (r: u8)
        ensures
            r == self.0,
    {
        self.0
    }

    pub fn write(&mut self, v: u8)
        ensures
            final(self).0 == v,
    {
        self.0 = v
    }

    /// Adds one, wrapping, and returns the new value.
    pub fn inc(&mut self) -> (r: u8)
        ensures
            r == final(self).0,
            r == (old(self).0 + 1) % 256,
    {
        self.0 = self.0.wrapping_add(1);
        self.0
    }

    /// Subtracts one, wrapping, and returns the new value.
    pub fn dec(&mut self) -> (r: u8)
        ensures
            r == final(self).0,
            r == (old(self).0 + 255) % 256,
    {
        self.0 = self.0.wrapping_sub(1);
        self.0
    }

    pub fn bit(&self, n: u8) -> (r: u8)
        requires
            n < 8,
        ensures
            r == bit::bit_of(self.0, n),
    {
        bit::get(self.0, n)
    }

    pub fn bit_set(&mut self, n: u8)
        requires
            n < 8,
        ensures
            final(self).0 == old(self).0 | (1u8 << n),
    {
        bit::set(&mut self.0, n);
    }

    pub fn bit_reset(&mut self, n: u8)
        requires
            n < 8,
        ensures
            final(self).0 == old(self).0 & !(1u8 << n),
    {
        bit::reset(&mut self.0, n);
    }
}

impl From<u8> for Register {
    fn from(value: u8) -> (r: Register) {
        Register(value)
    }
}

impl vstd::std_specs::convert::FromSpecImpl<u8> for Register {
    open spec fn obeys_from_spec() -> bool {
        true
    }

    open spec fn from_spec(v: u8) -> Register {
        Register(v)
    }
}

/// A register pair: the high and the low register read as one word.
#[derive(Debug, Clone, Copy, PartialEq, Eq, Structural)]
pub struct Word {
    pub high: Register,
    pub low: Register,
}

proof fn lemma_word_bytes(w: u16)
    ensures
        (w & 0xFF) as u8 == w % 256,
        ((w & 0xFF00) >> 8u16) as u8 == w / 256,
        word_of((w / 256) as u8, (w % 256) as u8) == w,
{
    bit::lemma_word_fields(w);
}

proof fn lemma_join(high: u8, low: u8)
    ensures
        ((high as u16) << 8u16) | (low as u16) == word_of(high, low),
        word_of(high, low) / 256 == high,
        word_of(high, low) % 256 == low,
{
    bit::lemma_join_bytes(high, low, 0);
}

impl Word {
    pub fn new(high: Register, low: Register) -> (w: Word)
        ensures
            w.high == high,
            w.low == low,
    {
        Word { high, low }
    }

    pub fn val(&self) -> (r: u16)
        ensures
            r == word_of(self.high.0, self.low.0),
    {
        proof {
            lemma_join(self.high.0, self.low.0);
        }
        ((self.high.0 as u16) << 8) | (self.low.0 as u16)
    }

    pub fn write(&mut self, w: u16)
        ensures
            final(self).high.0 == w / 256,
            final(self).low.0 == w % 256,
            word_of(final(self).high.0, final(self).low.0) == w,
    {
        proof {
            lemma_word_bytes(w);
        }
        self.low.0 = (w & 0xFF) as u8;
        self.high.0 = ((w & 0xFF00) >> 8) as u8;
    }

    /// Adds one to the pair and returns the new value; the pair must not be 0xFFFF.
    pub fn inc(&mut self) -> (r: u16)
        requires
            word_of(old(self).high.0, old(self).low.0) < 0xFFFF,
        ensures
            r == word_of(old(self).high.0, old(self).low.0) + 1,
            word_of(final(self).high.0, final(self).low.0) == r,
            final(self).high.0 == r / 256,
            final(self).low.0 == r % 256,
    {
        let v = self.val();
        self.write(v + 1);
        self.val()
    }

    /// Subtracts one from the pair and returns the new value; the pair must not be 0.
    pub fn dec(&mut self) -> (r: u16)
        requires
            word_of(old(self).high.0, old(self).low.0) > 0,
        ensures
            r == word_of(old(self).high.0, old(self).low.0) - 1,
            word_of(final(self).high.0, final(self).low.0) == r,
            final(self).high.0 == r / 256,
            final(self).low.0 == r % 256,
    {
        let v = self.val();
        self.write(v - 1);
        self.val()
    }
}

/// The processor as a value.
pub ghost struct CpuState {
    pub a: u8,
    pub f: u8,
    pub b: u8,
    pub c: u8,
    pub d: u8,
    pub e: u8,
    pub h: u8,
    pub l: u8,
    pub sp: u16,
    pub pc: u16,
    pub mem: Memory,
    pub ir: InstrView,
    pub addr_acc: Accessor,
    pub data_acc: Accessor,
    pub stop: bool,
    pub halt: bool,
    pub ime: bool,
    pub ie: bool,
}

/// A Game Boy processor that runs instructions one machine-cycle step at a time
/// against the memory it drives through its address and data buses.
pub struct CPU {
    pub a: Register,
    pub f: Register,
    pub b: Register,
    pub c: Register,
    pub d: Register,
    pub e: Register,
    pub h: Register,
    pub l: Register,
    pub sp: u16,
    pub pc: u16,
    pub addr_bus: AddressBus,
    pub data_bus: DataBus,
    pub mem: Memory,
    pub ir: Instruction,
    pub stop: bool,
    pub halt: bool,
    pub ime: bool,
    pub ie: bool,
}

impl View for CPU {
    type V = CpuState;

    open spec fn view(&self) -> CpuState {
        CpuState {
            a: self.a.0,
            f: self.f.0,
            b: self.b.0,
            c: self.c.0,
            d: self.d.0,
            e: self.e.0,
            h: self.h.0,
            l: self.l.0,
            sp: self.sp,
            pc: self.pc,
            mem: self.mem,
            ir: self.ir@,
            addr_acc: self.addr_bus.accessor,
            data_acc: self.data_bus.accessor,
            stop: self.stop,
            halt: self.halt,
            ime: self.ime,
            ie: self.ie,
        }
    }
}

/// A snapshot of the registers, as test fixtures record them; `ram` lists
/// `[address, value]` entries.
#[derive(Debug, Clone, PartialEq, Eq)]
pub struct State {
    pub pc: u16,
    pub sp: u16,
    pub a: u8,
    pub f: u8,
    pub b: u8,
    pub c: u8,
    pub d: u8,
    pub e: u8,
    pub h: u8,
    pub l: u8,
    pub ie: Option<u8>,
    pub ime: u8,
    pub ram: Vec<[u16; 2]>,
}

/// What the bus did in one machine cycle: the address and data seen, and the
/// read, write and memory-request pins.
#[derive(Debug, Clone, Copy, PartialEq, Eq, Structural)]
pub struct CycleState {
    pub addr: Option<u16>,
    pub data: Option<u8>,
    pub r: bool,
    pub w: bool,
    pub m: bool,
}

/// One element of a recorded bus cycle, as a JSON reader hands it over.
#[derive(Debug, Clone, PartialEq, Eq)]
pub enum CycleField {
    /// A number, with its value where it is an integer from 0 to 2^64 - 1.
    Number(Option<u64>),
    Null,
    /// A string, as its UTF-8 bytes.
    Text(Vec<u8>),
    /// Anything else.
    Other,
}

/// Why a recorded bus cycle could not be read.
#[derive(Debug, Clone, Copy, PartialEq, Eq, Structural)]
pub enum CycleError {
    /// The first element is neither a non-negative integer nor null.
    Address,
    /// The second element is neither a non-negative integer nor null.
    Data,
    /// The third element is not three ASCII characters.
    Pins,
    /// There are more than three elements.
    Length,
}

/// The address or data element: an integer (truncated to the width), null for
/// none, anything else an error.
pub open spec fn field_number(f: CycleField, modulus: int) -> Option<Option<int>> {
    match f {
        CycleField::Number(Some(v)) => Some(Some(v as int % modulus)),
        CycleField::Null => Some(None),
        _ => None,
    }
}

/// The pins that a three-letter text gives, if it is three ASCII characters.
pub open spec fn pins_of(t: Seq<u8>) -> Option<(bool, bool, bool)> {
    if t.len() == 3 && forall|i: int| 0 <= i < 3 ==> #[trigger] t[i] < 0x80 {
        Some((t[0] == 0x72, t[1] == 0x77, t[2] == 0x6D))
    } else {
        None
    }
}

/// The cycle that a list of elements describes: address, data and pins in that
/// order, each optional from the end; the first bad element decides the error.
pub open spec fn cycle_of(fields: Seq<CycleField>) -> Result<CycleState, CycleError> {
    let addr = if fields.len() > 0 { field_number(fields[0], 0x10000) } else { Some(None) };
    let data = if fields.len() > 1 { field_number(fields[1], 0x100) } else { Some(None) };
    let pins = if fields.len() > 2 {
        match fields[2] {
            CycleField::Text(t) => pins_of(t@),
            _ => None,
        }
    } else {
        Some((false, false, false))
    };
    if addr is None {
        Err(CycleError::Address)
    } else if data is None {
        Err(CycleError::Data)
    } else if pins is None {
        Err(CycleError::Pins)
    } else if fields.len() > 3 {
        Err(CycleError::Length)
    } else {
        let (r, w, m) = pins->0;
        Ok(
            CycleState {
                addr: match addr->0 {
                    Some(a) => Some(a as u16),
                    None => None,
                },
                data: match data->0 {
                    Some(d) => Some(d as u8),
                    None => None,
                },
                r,
                w,
                m,
            },
        )
    }
}

impl CycleState {
    /// The read, write and memory-request pins from their three-letter form
    /// (`r`, `w` and `m` where a pin is active, anything else where not); `None`
    /// unless the text is three ASCII characters.
    pub fn pins(rwm: &[u8]) -> (r: Option<(bool, bool, bool)>)
        ensures
            r == pins_of(rwm@),
    {
        if rwm.len() != 3 {
            return None;
        }
        if rwm[0] >= 0x80 || rwm[1] >= 0x80 || rwm[2] >= 0x80 {
            return None;
        }
        Some((rwm[0] == 0x72, rwm[1] == 0x77, rwm[2] == 0x6D))
    }

    /// Reads a recorded cycle from its elements: `[address, data, "rwm"]`.
    pub fn from_fields(fields: &Vec<CycleField>) -> (r: Result<CycleState, CycleError>)
        ensures
            r == cycle_of(fields@),
    {
        let mut cs = CycleState { addr: None, data: None, r: false, w: false, m: false };
        if fields.len() > 0 {
            match &fields[0] {
                CycleField::Number(Some(addr)) => {
                    proof {
                        bit::lemma_truncate(*addr);
                    }
                    cs.addr = Some(*addr as u16);
                },
                CycleField::Null => {
                    cs.addr = None;
                },
                _ => {
                    return Err(CycleError::Address);
                },
            }
        }
        if fields.len() > 1 {
            match &fields[1] {
                CycleField::Number(Some(data)) => {
                    proof {
                        bit::lemma_truncate(*data);
                    }
                    cs.data = Some(*data as u8);
                },
                CycleField::Null => {
                    cs.data = None;
                },
                _ => {
                    return Err(CycleError::Data);
                },
            }
        }
        if fields.len() > 2 {
            match &fields[2] {
                CycleField::Text(t) => {
                    match CycleState::pins(t.as_slice()) {
                        Some((r, w, m)) => {
                            cs.r = r;
                            cs.w = w;
                            cs.m = m;
                        },
                        None => {
                            return Err(CycleError::Pins);
                        },
                    }
                },
                _ => {
                    return Err(CycleError::Pins);
                },
            }
        }
        if fields.len() > 3 {
            return Err(CycleError::Length);
        }
        Ok(cs)
    }
}

/// The state after fetching the byte at PC: PC on the address line and PC
/// advanced, wrapping.
pub open spec fn fetch_spec(s: CpuState) -> CpuState {
    CpuState { mem: s.mem.with_addr_line(s.pc), pc: ((s.pc + 1) % 65536) as u16, ..s }
}

/// The byte that a fetch reads.
pub open spec fn fetched(s: CpuState) -> u8 {
    s.mem.byte_at(s.pc)
}


/// The value that an operand reads as: a register, a register pair, a fetched
/// operand (the signed offset extended to a word) or the byte on the data bus.
#[verifier::opaque]
pub open spec fn src_val(s: CpuState, r: instr::Register) -> u16 {
    match r {
        instr::Register::NN => word_of(s.ir.n16_hi->0, s.ir.n16_lo->0),
        instr::Register::N => (s.ir.n8->0) as u16,
        instr::Register::NE => (s.ir.e->0) as u16,
        instr::Register::A => s.a as u16,
        instr::Register::B => s.b as u16,
        instr::Register::C => s.c as u16,
        instr::Register::D => s.d as u16,
        instr::Register::E => s.e as u16,
        instr::Register::H => s.h as u16,
        instr::Register::L => s.l as u16,
        instr::Register::PC => s.pc,
        instr::Register::BC => word_of(s.b, s.c),
        instr::Register::DE => word_of(s.d, s.e),
        instr::Register::SP => s.sp,
        instr::Register::HL => word_of(s.h, s.l),
        instr::Register::Memory => s.mem.byte_at(s.mem.addr_line()) as u16,
        _ => 0,
    }
}

/// The operands that can be read, given the operands fetched so far.
pub open spec fn src_ok(s: CpuState, r: instr::Register) -> bool {
    match r {
        instr::Register::NN => s.ir.n16_lo is Some && s.ir.n16_hi is Some,
        instr::Register::N => s.ir.n8 is Some,
        instr::Register::NE => s.ir.e is Some,
        instr::Register::A | instr::Register::B | instr::Register::C | instr::Register::D
        | instr::Register::E | instr::Register::H | instr::Register::L | instr::Register::PC
        | instr::Register::BC | instr::Register::DE | instr::Register::SP | instr::Register::HL
        | instr::Register::Memory => true,
        _ => false,
    }
}

/// The operands that can be written.
pub open spec fn dst_ok(r: instr::Register) -> bool {
    match r {
        instr::Register::BC | instr::Register::DE | instr::Register::HL | instr::Register::SP
        | instr::Register::PC | instr::Register::B | instr::Register::D | instr::Register::H
        | instr::Register::C | instr::Register::E | instr::Register::L | instr::Register::A => true,
        _ => false,
    }
}

/// The state after writing `val` to an operand: a pair takes the whole word, an
/// 8-bit register its low byte.
pub open spec fn set_reg(s: CpuState, dst: instr::Register, val: u16) -> CpuState {
    let hi = (val / 256) as u8;
    let lo = (val % 256) as u8;
    match dst {
        instr::Register::BC => CpuState { b: hi, c: lo, ..s },
        instr::Register::DE => CpuState { d: hi, e: lo, ..s },
        instr::Register::HL => CpuState { h: hi, l: lo, ..s },
        instr::Register::SP => CpuState { sp: val, ..s },
        instr::Register::PC => CpuState { pc: val, ..s },
        instr::Register::B => CpuState { b: lo, ..s },
        instr::Register::D => CpuState { d: lo, ..s },
        instr::Register::H => CpuState { h: lo, ..s },
        instr::Register::C => CpuState { c: lo, ..s },
        instr::Register::E => CpuState { e: lo, ..s },
        instr::Register::L => CpuState { l: lo, ..s },
        instr::Register::A => CpuState { a: lo, ..s },
        _ => s,
    }
}

/// The state with `f` as the flags.
pub open spec fn with_f(s: CpuState, f: u8) -> CpuState {
    CpuState { f, ..s }
}

/// The state after fetching an operand byte into the instruction.
#[verifier::opaque]
pub open spec fn fetch_op_spec(s: CpuState, f: Fetch) -> CpuState {
    let t = fetch_spec(s);
    let v = fetched(s);
    match f {
        Fetch::NnLo => CpuState { ir: InstrView { n16_lo: Some(v), ..t.ir }, ..t },
        Fetch::NnHi => CpuState { ir: InstrView { n16_hi: Some(v), ..t.ir }, ..t },
        Fetch::N => CpuState { ir: InstrView { n8: Some(v), ..t.ir }, ..t },
        Fetch::E => CpuState { ir: InstrView { e: Some(v as i8), ..t.ir }, ..t },
    }
}

/// The byte that `Load::Memory` stores for a source operand.
pub open spec fn byte_src(s: CpuState, r: instr::Register) -> u8 {
    match r {
        instr::Register::A => s.a,
        instr::Register::B => s.b,
        instr::Register::C => s.c,
        instr::Register::D => s.d,
        instr::Register::E => s.e,
        instr::Register::H => s.h,
        instr::Register::L => s.l,
        instr::Register::N => s.ir.n8->0,
        instr::Register::NnLo => s.ir.n16_lo->0,
        instr::Register::NnHi => s.ir.n16_hi->0,
        _ => 0,
    }
}

pub open spec fn byte_src_ok(s: CpuState, r: instr::Register) -> bool {
    match r {
        instr::Register::A | instr::Register::B | instr::Register::C | instr::Register::D
        | instr::Register::E | instr::Register::H | instr::Register::L => true,
        instr::Register::N => s.ir.n8 is Some,
        instr::Register::NnLo => s.ir.n16_lo is Some,
        instr::Register::NnHi => s.ir.n16_hi is Some,
        _ => false,
    }
}

/// The state after putting `v` on the data bus and storing it at the address on
/// the address line.
pub open spec fn store_byte(s: CpuState, v: u8) -> CpuState {
    CpuState { mem: s.mem.with_data_line(v).stored(s.mem.addr_line(), v), ..s }
}

pub open spec fn load_ok(s: CpuState, l: instr::Load) -> bool {
    match l {
        instr::Load::Register(dst, src) => src_ok(s, src) && dst_ok(dst),
        instr::Load::Memory(src) => byte_src_ok(s, src),
        instr::Load::MemoryLo(src) => src == instr::Register::SP,
        instr::Load::MemoryHi(src) => src == instr::Register::SP,
    }
}

#[verifier::opaque]
pub open spec fn load_spec(s: CpuState, l: instr::Load) -> CpuState {
    match l {
        instr::Load::Register(dst, src) => set_reg(s, dst, src_val(s, src)),
        instr::Load::Memory(src) => store_byte(s, byte_src(s, src)),
        instr::Load::MemoryLo(_) => store_byte(s, (s.sp % 256) as u8),
        instr::Load::MemoryHi(_) => store_byte(s, (s.sp / 256) as u8),
    }
}

/// The state with `addr` on the address line.
pub open spec fn with_addr(s: CpuState, addr: u16) -> CpuState {
    CpuState { mem: s.mem.with_addr_line(addr), ..s }
}

pub open spec fn assert_ok(s: CpuState, r: instr::Register) -> bool {
    match r {
        instr::Register::BC | instr::Register::DE | instr::Register::HL | instr::Register::SP => true,
        instr::Register::HLI => word_of(s.h, s.l) < 0xFFFF,
        instr::Register::HLD => word_of(s.h, s.l) > 0,
        instr::Register::NN => s.ir.n16_lo is Some && s.ir.n16_hi is Some,
        _ => false,
    }
}

/// Puts an address on the address line: a pair, SP or the fetched word; the
/// post-increment and post-decrement forms then step HL.
#[verifier::opaque]
pub open spec fn assert_spec(s: CpuState, r: instr::Register) -> CpuState {
    let hl = word_of(s.h, s.l);
    match r {
        instr::Register::BC => with_addr(s, word_of(s.b, s.c)),
        instr::Register::DE => with_addr(s, word_of(s.d, s.e)),
        instr::Register::HL => with_addr(s, hl),
        instr::Register::HLI => set_reg(with_addr(s, hl), instr::Register::HL, (hl + 1) as u16),
        instr::Register::HLD => set_reg(with_addr(s, hl), instr::Register::HL, (hl - 1) as u16),
        instr::Register::NN => with_addr(s, word_of(s.ir.n16_hi->0, s.ir.n16_lo->0)),
        instr::Register::SP => with_addr(s, s.sp),
        _ => s,
    }
}

pub open spec fn assert_inc_ok(s: CpuState, r: instr::Register) -> bool {
    match r {
        instr::Register::NN => s.ir.n16_lo is Some && s.ir.n16_hi is Some,
        instr::Register::SP => true,
        _ => false,
    }
}

#[verifier::opaque]
pub open spec fn assert_inc_spec(s: CpuState, r: instr::Register) -> CpuState {
    match r {
        instr::Register::NN => with_addr(
            s,
            ((word_of(s.ir.n16_hi->0, s.ir.n16_lo->0) + 1) % 65536) as u16,
        ),
        _ => with_addr(s, ((s.sp + 1) % 65536) as u16),
    }
}

/// Flags after an 8-bit increment of `v`: Z when the result is 0, N reset, H
/// when the low nibble carries.
pub open spec fn inc8_flags(f: u8, v: u8) -> u8 {
    with_flag(with_flag(with_flag(f, Flag::H, v % 16 == 15), Flag::Z, (v + 1) % 256 == 0), Flag::N, false)
}

/// Flags after an 8-bit decrement of `v`: Z when the result is 0, N set, H
/// when the low nibble borrows.
pub open spec fn dec8_flags(f: u8, v: u8) -> u8 {
    with_flag(with_flag(with_flag(f, Flag::H, v % 16 == 0), Flag::Z, (v + 255) % 256 == 0), Flag::N, true)
}

pub open spec fn is_byte_reg(r: instr::Register) -> bool {
    match r {
        instr::Register::A | instr::Register::B | instr::Register::C | instr::Register::D
        | instr::Register::E | instr::Register::H | instr::Register::L => true,
        _ => false,
    }
}

pub open spec fn inc_ok(s: CpuState, i: instr::Inc) -> bool {
    match i {
        instr::Inc::Memory => true,
        instr::Inc::Register(r) => match r {
            instr::Register::BC => word_of(s.b, s.c) < 0xFFFF,
            instr::Register::DE => word_of(s.d, s.e) < 0xFFFF,
            instr::Register::HL => word_of(s.h, s.l) < 0xFFFF,
            instr::Register::SP => true,
            _ => is_byte_reg(r),
        },
    }
}

#[verifier::opaque]
pub open spec fn inc_spec(s: CpuState, i: instr::Inc) -> CpuState {
    match i {
        instr::Inc::Memory => {
            let v = s.mem.byte_at(s.mem.addr_line());
            let r = ((v + 1) % 256) as u8;
            store_byte(with_f(s, inc8_flags(s.f, v)), r)
        },
        instr::Inc::Register(r) => match r {
            instr::Register::BC | instr::Register::DE | instr::Register::HL => set_reg(
                s,
                r,
                (src_val(s, r) + 1) as u16,
            ),
            instr::Register::SP => CpuState { sp: ((s.sp + 1) % 65536) as u16, ..s },
            _ => {
                let v = src_val(s, r) as u8;
                set_reg(with_f(s, inc8_flags(s.f, v)), r, ((v + 1) % 256) as u16)
            },
        },
    }
}

pub open spec fn dec_ok(s: CpuState, d: instr::Dec) -> bool {
    match d {
        instr::Dec::Memory => true,
        instr::Dec::Register(r) => match r {
            instr::Register::BC => word_of(s.b, s.c) > 0,
            instr::Register::DE => word_of(s.d, s.e) > 0,
            instr::Register::HL => word_of(s.h, s.l) > 0,
            instr::Register::SP => true,
            _ => is_byte_reg(r),
        },
    }
}

#[verifier::opaque]
pub open spec fn dec_spec(s: CpuState, d: instr::Dec) -> CpuState {
    match d {
        instr::Dec::Memory => {
            let v = s.mem.byte_at(s.mem.addr_line());
            let r = ((v + 255) % 256) as u8;
            store_byte(with_f(s, dec8_flags(s.f, v)), r)
        },
        instr::Dec::Register(r) => match r {
            instr::Register::BC | instr::Register::DE | instr::Register::HL => set_reg(
                s,
                r,
                (src_val(s, r) - 1) as u16,
            ),
            instr::Register::SP => CpuState { sp: ((s.sp + 65535) % 65536) as u16, ..s },
            _ => {
                let v = src_val(s, r) as u8;
                set_reg(with_f(s, dec8_flags(s.f, v)), r, ((v + 255) % 256) as u16)
            },
        },
    }
}

/// Flags after a rotate that produced `result` with `carry` shifted out: Z is
/// reset when rotating A or when the result is 0 (and kept otherwise), N and H
/// reset.
pub open spec fn rot_flags(f: u8, r: instr::Register, carry: bool, result: u8) -> u8 {
    let f1 = with_flag(f, Flag::C, carry);
    let f2 = if r == instr::Register::A || result == 0 {
        with_flag(f1, Flag::Z, false)
    } else {
        f1
    };
    with_flag(with_flag(f2, Flag::N, false), Flag::H, false)
}

/// Rotate left: bit 7 goes to bit 0 and to C.
#[verifier::opaque]
pub open spec fn rlc_spec(s: CpuState, r: instr::Register) -> CpuState {
    let v = (src_val(s, r) % 256) as u8;
    let b7 = v / 128;
    let result = ((v * 2) % 256 + b7) as u8;
    with_f(set_reg(s, r, result as u16), rot_flags(s.f, r, b7 == 1, result))
}

/// Rotate left through carry: C goes to bit 0, bit 7 goes to C.
#[verifier::opaque]
pub open spec fn rl_spec(s: CpuState, r: instr::Register) -> CpuState {
    let v = (src_val(s, r) % 256) as u8;
    let cf: u8 = if flag_of(s.f, Flag::C) { 1 } else { 0 };
    let b7 = v / 128;
    let result = ((v * 2) % 256 + cf) as u8;
    with_f(set_reg(s, r, result as u16), rot_flags(s.f, r, b7 == 1, result))
}

/// Rotate right: bit 0 goes to bit 7 and to C.
#[verifier::opaque]
pub open spec fn rrc_spec(s: CpuState, r: instr::Register) -> CpuState {
    let v = (src_val(s, r) % 256) as u8;
    let b0 = v % 2;
    let result = (v / 2 + b0 * 128) as u8;
    with_f(set_reg(s, r, result as u16), rot_flags(s.f, r, b0 == 1, result))
}

/// Rotate right through carry: C goes to bit 7, bit 0 goes to C.
#[verifier::opaque]
pub open spec fn rr_spec(s: CpuState, r: instr::Register) -> CpuState {
    let v = (src_val(s, r) % 256) as u8;
    let cf: u8 = if flag_of(s.f, Flag::C) { 1 } else { 0 };
    let b0 = v % 2;
    let result = (v / 2 + cf * 128) as u8;
    with_f(set_reg(s, r, result as u16), rot_flags(s.f, r, b0 == 1, result))
}

/// A after the decimal adjust of `a`, given the N, H and C flags.
pub open spec fn daa_value(a: u8, n: bool, h: bool, c: bool) -> u8 {
    if n {
        let r1 = if h { (a + 250) % 256 } else { a as int };
        (if c { (r1 + 160) % 256 } else { r1 }) as u8
    } else {
        let r1 = if h || a % 16 > 9 { (a + 6) % 256 } else { a as int };
        (if c || a > 0x99 { (r1 + 0x60) % 256 } else { r1 }) as u8
    }
}

/// Decimal adjust of A after a BCD addition or subtraction: C is set when an
/// addition needed the upper adjustment, Z follows the result, H is reset.
#[verifier::opaque]
pub open spec fn daa_spec(s: CpuState) -> CpuState {
    let n = flag_of(s.f, Flag::N);
    let c = flag_of(s.f, Flag::C);
    let result = daa_value(s.a, n, flag_of(s.f, Flag::H), c);
    let f1 = if !n && (c || s.a > 0x99) {
        with_flag(s.f, Flag::C, true)
    } else {
        s.f
    };
    CpuState { a: result, f: with_flag(with_flag(f1, Flag::Z, result == 0), Flag::H, false), ..s }
}

/// DAA corrects A after a BCD operation. After a subtraction (N set) it takes
/// 6 off for a half borrow (H) and 0x60 off for a borrow (C). After an addition
/// it adds 6 when the low digit carried (H) or is above 9, and 0x60 when the
/// value carried (C) or is above 0x99, which then sets C. Z follows the new A,
/// H is cleared, and N and everything else are kept.
pub proof fn lemma_daa_adjusts(s: CpuState)
    ensures
        ({
            let t = daa_spec(s);
            let n = flag_of(s.f, Flag::N);
            let h = flag_of(s.f, Flag::H);
            let c = flag_of(s.f, Flag::C);
            &&& n ==> t.a as int == (s.a - (if h { 6int } else { 0int }) - (if c { 0x60int } else { 0int }))
                % 256
            &&& !n ==> t.a as int == (s.a + (if h || s.a % 16 > 9 { 6int } else { 0int }) + (if c
                || s.a > 0x99 { 0x60int } else { 0int })) % 256
            &&& flag_of(t.f, Flag::C) == (c || (!n && s.a > 0x99))
            &&& flag_of(t.f, Flag::Z) == (t.a == 0)
            &&& !flag_of(t.f, Flag::H)
            &&& flag_of(t.f, Flag::N) == n
            &&& t == (CpuState { a: t.a, f: t.f, ..s })
        }),
{
    reveal(daa_spec);
    let n = flag_of(s.f, Flag::N);
    let h = flag_of(s.f, Flag::H);
    let c = flag_of(s.f, Flag::C);
    let result = daa_value(s.a, n, h, c);
    lemma_daa_correction(s.a, n, h, c);
    let f1 = if !n && (c || s.a > 0x99) {
        with_flag(s.f, Flag::C, true)
    } else {
        s.f
    };
    let f2 = with_flag(f1, Flag::Z, result == 0);
    assert(flag_of(f1, Flag::C) == (c || (!n && s.a > 0x99)) && flag_of(f1, Flag::N) == n) by {
        lemma_with_flag(s.f, Flag::C, true, Flag::C);
        lemma_with_flag(s.f, Flag::C, true, Flag::N);
    }
    assert(flag_of(f2, Flag::C) == flag_of(f1, Flag::C) && flag_of(f2, Flag::N) == n
        && flag_of(f2, Flag::Z) == (result == 0)) by {
        lemma_with_flag(f1, Flag::Z, result == 0, Flag::C);
        lemma_with_flag(f1, Flag::Z, result == 0, Flag::N);
    }
    lemma_with_flag(f2, Flag::H, false, Flag::C);
    lemma_with_flag(f2, Flag::H, false, Flag::Z);
    lemma_with_flag(f2, Flag::H, false, Flag::N);
}

/// The decimal correction as signed steps on A, modulo 256.
proof fn lemma_daa_correction(a: u8, n: bool, h: bool, c: bool)
    ensures
        n ==> daa_value(a, n, h, c) as int == (a - (if h { 6int } else { 0int }) - (if c { 0x60int } else { 0int }))
            % 256,
        !n ==> daa_value(a, n, h, c) as int == (a + (if h || a % 16 > 9 { 6int } else { 0int }) + (if c
            || a > 0x99 { 0x60int } else { 0int })) % 256,
{
}

/// The flags for an 8-bit or 16-bit logic result: Z from the result, N and C
/// reset, H as given.
pub open spec fn logic_flags(f: u8, result: u8, h: bool) -> u8 {
    with_flag(with_flag(with_flag(with_flag(f, Flag::Z, result == 0), Flag::N, false), Flag::H, h), Flag::C, false)
}

/// Both operands are 8-bit.
pub open spec fn bytes(r1: instr::Register, r2: instr::Register) -> bool {
    r1.spec_is_byte() && r2.spec_is_byte()
}

/// The zero flag test: on the low byte for 8-bit operands, on the word otherwise.
pub open spec fn is_zero(r1: instr::Register, r2: instr::Register, result: u16) -> bool {
    if bytes(r1, r2) {
        result % 256 == 0
    } else {
        result == 0
    }
}

/// `a + e` for a signed offset `e`, modulo 2^16.
pub open spec fn add_offset(a: u16, e: i8) -> u16 {
    ((a as int + e as int) % 65536) as u16
}

/// The flags after an arithmetic operation: H and C as given, Z as given unless
/// the target is HL (whose Z is kept), and N as given.
pub open spec fn flags_after(f: u8, h: bool, c: bool, r1: instr::Register, z: bool, n: bool) -> u8 {
    let f1 = with_flag(with_flag(f, Flag::H, h), Flag::C, c);
    let f2 = if r1 != instr::Register::HL {
        with_flag(f1, Flag::Z, z)
    } else {
        f1
    };
    with_flag(f2, Flag::N, n)
}

/// The value an ADD writes: the signed offset moves the target, otherwise the
/// sum modulo 2^16 (an 8-bit target keeps its low byte).
pub open spec fn add_value(s: CpuState, r1: instr::Register, r2: instr::Register) -> u16 {
    let a = src_val(s, r1);
    if r2 == instr::Register::NE {
        add_offset(a, s.ir.e->0)
    } else {
        ((a + src_val(s, r2)) % 65536) as u16
    }
}

/// The flags after an ADD: H from bit 3 (8-bit operands) or bit 11, C from bit 7
/// or bit 15, Z from the result, N reset; the offset form keeps them.
pub open spec fn add_flags(s: CpuState, r1: instr::Register, r2: instr::Register) -> u8 {
    let a = src_val(s, r1);
    let b = src_val(s, r2);
    if r2 == instr::Register::NE {
        s.f
    } else {
        let h = if bytes(r1, r2) {
            (a % 256) % 16 + (b % 256) % 16 > 15
        } else {
            a % 0x1000 + b % 0x1000 > 0xFFF
        };
        let c = if bytes(r1, r2) {
            (a % 256) + (b % 256) > 0xFF
        } else {
            a + b > 0xFFFF
        };
        flags_after(s.f, h, c, r1, is_zero(r1, r2, add_value(s, r1, r2)), false)
    }
}

/// ADD: 8-bit or 16-bit addition; a signed offset operand only moves the target.
#[verifier::opaque]
pub open spec fn add_spec(s: CpuState, r1: instr::Register, r2: instr::Register) -> CpuState {
    set_reg(with_f(s, add_flags(s, r1, r2)), r1, add_value(s, r1, r2))
}

pub open spec fn carry_in(s: CpuState) -> int {
    if flag_of(s.f, Flag::C) {
        1
    } else {
        0
    }
}

/// The value an ADC writes: the sum with the carry flag, modulo 2^16.
pub open spec fn adc_value(s: CpuState, r1: instr::Register, r2: instr::Register) -> u16 {
    let a = src_val(s, r1);
    if r2 == instr::Register::NE {
        add_offset(a, s.ir.e->0)
    } else {
        ((a + src_val(s, r2) + carry_in(s)) % 65536) as u16
    }
}

/// The flags after an ADC: H and C count the carry in, Z from the result, N reset.
pub open spec fn adc_flags(s: CpuState, r1: instr::Register, r2: instr::Register) -> u8 {
    let a = src_val(s, r1);
    let b = src_val(s, r2);
    let c = carry_in(s);
    if r2 == instr::Register::NE {
        s.f
    } else {
        let h = (a % 256) % 16 + (b % 256) % 16 + c > 15;
        let cy = (a % 256) + (b % 256) + c > 0xFF;
        flags_after(s.f, h, cy, r1, is_zero(r1, r2, adc_value(s, r1, r2)), false)
    }
}

/// ADC: 8-bit addition with the carry flag.
#[verifier::opaque]
pub open spec fn adc_spec(s: CpuState, r1: instr::Register, r2: instr::Register) -> CpuState {
    set_reg(with_f(s, adc_flags(s, r1, r2)), r1, adc_value(s, r1, r2))
}

/// The value a SUB writes: the difference modulo 2^16, or the target moved by
/// the signed offset.
pub open spec fn sub_value(s: CpuState, r1: instr::Register, r2: instr::Register) -> u16 {
    let a = src_val(s, r1);
    if r2 == instr::Register::NE {
        add_offset(a, s.ir.e->0)
    } else {
        ((a - src_val(s, r2) + 65536) % 65536) as u16
    }
}

/// The flags after a SUB: H on a borrow from bit 4, C on a borrow, Z from the
/// result, N set.
pub open spec fn sub_flags(s: CpuState, r1: instr::Register, r2: instr::Register) -> u8 {
    let a = src_val(s, r1);
    let b = src_val(s, r2);
    if r2 == instr::Register::NE {
        s.f
    } else {
        let h = if bytes(r1, r2) {
            (a % 256) % 16 < (b % 256) % 16
        } else {
            a % 256 + (255 - b % 256) < 0xFF
        };
        flags_after(s.f, h, a < b, r1, is_zero(r1, r2, sub_value(s, r1, r2)), true)
    }
}

/// SUB: 8-bit subtraction; a signed offset operand adds it to the target.
#[verifier::opaque]
pub open spec fn sub_spec(s: CpuState, r1: instr::Register, r2: instr::Register) -> CpuState {
    set_reg(with_f(s, sub_flags(s, r1, r2)), r1, sub_value(s, r1, r2))
}

/// The value an SBC writes: the difference less the carry, modulo 2^16.
pub open spec fn sbc_value(s: CpuState, r1: instr::Register, r2: instr::Register) -> u16 {
    ((src_val(s, r1) - src_val(s, r2) - carry_in(s) + 2 * 65536) % 65536) as u16
}

/// The flags after an SBC: H and C count the carry as a borrow, Z from the
/// result, N set.
pub open spec fn sbc_flags(s: CpuState, r1: instr::Register, r2: instr::Register) -> u8 {
    let a = src_val(s, r1);
    let b = src_val(s, r2);
    let c = carry_in(s);
    let h = (a % 256) % 16 < (b % 256) % 16 + c;
    flags_after(s.f, h, a < b % 256 + c, r1, is_zero(r1, r2, sbc_value(s, r1, r2)), true)
}

/// SBC: 8-bit subtraction with the carry flag as borrow.
#[verifier::opaque]
pub open spec fn sbc_spec(s: CpuState, r1: instr::Register, r2: instr::Register) -> CpuState {
    set_reg(with_f(s, sbc_flags(s, r1, r2)), r1, sbc_value(s, r1, r2))
}

/// An arithmetic operation whose operands can be read and whose target written.
pub open spec fn arith_ok(s: CpuState, r1: instr::Register, r2: instr::Register) -> bool {
    src_ok(s, r1) && src_ok(s, r2) && dst_ok(r1)
}

/// Whether running `op` in state `s` goes through (the others stop the emulator).
pub open spec fn op_ok(s: CpuState, op: Op) -> bool {
    match op {
        Op::Stop | Op::Halt | Op::DAA | Op::SCF | Op::CPL | Op::CCF | Op::CheckCond(_)
        | Op::Fetch(_) => true,
        Op::Add(instr::Add::Register(r1, r2)) => arith_ok(s, r1, r2),
        Op::ADC(instr::ADC::Register(r1, r2)) => arith_ok(s, r1, r2) && (r2 == instr::Register::NE
            || bytes(r1, r2)),
        Op::Sub(instr::Sub::Register(r1, r2)) => arith_ok(s, r1, r2) && (r2 == instr::Register::NE
            || bytes(r1, r2)),
        Op::SBC(instr::SBC::Register(r1, r2)) => arith_ok(s, r1, r2) && bytes(r1, r2),
        Op::AND(r) | Op::XOR(r) | Op::OR(r) => src_ok(s, r),
        Op::Load(l) => load_ok(s, l),
        Op::Assert(r) => assert_ok(s, r),
        Op::AssertInc(r) => assert_inc_ok(s, r),
        Op::Inc(i) => inc_ok(s, i),
        Op::Dec(d) => dec_ok(s, d),
        Op::RLC(r) | Op::RL(r) | Op::RRC(r) | Op::RR(r) => src_ok(s, r) && dst_ok(r),
        _ => false,
    }
}

/// The state after running `op` in state `s`.
pub open spec fn op_spec(s: CpuState, op: Op) -> CpuState {
    let f = s.f;
    match op {
        Op::Stop => CpuState { stop: true, ..s },
        Op::Halt => CpuState { halt: true, ..s },
        Op::Add(instr::Add::Register(r1, r2)) => add_spec(s, r1, r2),
        Op::ADC(instr::ADC::Register(r1, r2)) => adc_spec(s, r1, r2),
        Op::Sub(instr::Sub::Register(r1, r2)) => sub_spec(s, r1, r2),
        Op::SBC(instr::SBC::Register(r1, r2)) => sbc_spec(s, r1, r2),
        Op::AND(r) => {
            let result = s.a & ((src_val(s, r) % 256) as u8);
            CpuState { a: result, f: logic_flags(f, result, true), ..s }
        },
        Op::XOR(r) => {
            let result = s.a ^ ((src_val(s, r) % 256) as u8);
            CpuState { a: result, f: logic_flags(f, result, false), ..s }
        },
        Op::OR(r) => {
            let result = s.a | ((src_val(s, r) % 256) as u8);
            CpuState { a: result, f: logic_flags(f, result, false), ..s }
        },
        Op::Fetch(fe) => fetch_op_spec(s, fe),
        Op::Load(l) => load_spec(s, l),
        Op::Assert(r) => assert_spec(s, r),
        Op::AssertInc(r) => assert_inc_spec(s, r),
        Op::Inc(i) => inc_spec(s, i),
        Op::Dec(d) => dec_spec(s, d),
        Op::RLC(r) => rlc_spec(s, r),
        Op::RL(r) => rl_spec(s, r),
        Op::RRC(r) => rrc_spec(s, r),
        Op::RR(r) => rr_spec(s, r),
        Op::DAA => daa_spec(s),
        Op::SCF => with_f(s, with_flag(with_flag(with_flag(f, Flag::N, false), Flag::H, false), Flag::C, true)),
        Op::CPL => CpuState { a: !s.a, f: with_flag(with_flag(f, Flag::N, true), Flag::H, true), ..s },
        Op::CCF => {
            let f2 = with_flag(with_flag(f, Flag::N, false), Flag::H, false);
            with_f(s, with_flag(f2, Flag::C, !flag_of(f2, Flag::C)))
        },
        Op::CheckCond(c) => if cond_holds(f, c) {
            s
        } else {
            CpuState { ir: InstrView { done: true, ..s.ir }, ..s }
        },
        _ => s,
    }
}

impl CPU {
    /// A processor in the state the boot ROM leaves it in, over memory `mem`.
    pub fn new(mem: Memory) -> (cpu: CPU)
        ensures
            cpu@.a == 0x00 && cpu@.f == 0b1000_0000 && cpu@.b == 0x00 && cpu@.c == 0x13,
            cpu@.d == 0x00 && cpu@.e == 0xD8 && cpu@.h == 0x01 && cpu@.l == 0x4D,
            cpu@.sp == 0xFFFE && cpu@.pc == 0x0100,
            cpu@.mem == mem,
            cpu@.ir == decoded_view(0x00),
            cpu@.addr_acc == Accessor::CPU && cpu@.data_acc == Accessor::CPU,
            !cpu@.stop && !cpu@.halt && !cpu@.ie && !cpu@.ime,
    {
        let addr_bus = mem.address_bus(Accessor::CPU);
        let data_bus = mem.data_bus(Accessor::CPU);
        CPU {
            a: Register::with_val(0x00),
            f: Register::with_val(0b1000_0000),
            b: Register::with_val(0x00),
            c: Register::with_val(0x13),
            d: Register::with_val(0x00),
            e: Register::with_val(0xD8),
            h: Register::with_val(0x01),
            l: Register::with_val(0x4D),
            sp: 0xFFFE,
            pc: 0x0100,
            addr_bus,
            data_bus,
            mem,
            ir: Instruction::decode(0x00),
            stop: false,
            halt: false,
            ie: false,
            ime: false,
        }
    }

    pub fn set_flag(&mut self, f: Flag)
        ensures
            final(self)@ == (CpuState { f: with_flag(old(self)@.f, f, true), ..old(self)@ }),
    {
        match f {
            Flag::Z => self.f.bit_set(7),
            Flag::N => self.f.bit_set(6),
            Flag::H => self.f.bit_set(5),
            Flag::C => self.f.bit_set(4),
        }
    }

    pub fn reset_flag(&mut self, f: Flag)
        ensures
            final(self)@ == (CpuState { f: with_flag(old(self)@.f, f, false), ..old(self)@ }),
    {
        match f {
            Flag::Z => self.f.bit_reset(7),
            Flag::N => self.f.bit_reset(6),
            Flag::H => self.f.bit_reset(5),
            Flag::C => self.f.bit_reset(4),
        }
    }

    /// Sets the flag when bit 0 of `v` is 1 and resets it otherwise.
    pub fn set_flag_from_val(&mut self, f: Flag, v: u8)
        ensures
            final(self)@ == (CpuState {
                f: with_flag(old(self)@.f, f, v % 2 == 1),
                ..old(self)@
            }),
    {
        proof {
            bit::lemma_byte_fields(v);
        }
        if (v & 1) == 1 {
            self.set_flag(f);
        } else {
            self.reset_flag(f);
        }
    }

    pub fn invert_flag(&mut self, f: Flag)
        ensures
            final(self)@ == (CpuState {
                f: with_flag(old(self)@.f, f, !flag_of(old(self)@.f, f)),
                ..old(self)@
            }),
    {
        if self.flag(f) {
            self.reset_flag(f);
        } else {
            self.set_flag(f);
        }
    }

    pub fn flag(&self, f: Flag) -> (r: bool)
        ensures
            r == flag_of(self@.f, f),
    {
        let b = match f {
            Flag::Z => self.f.bit(7),
            Flag::N => self.f.bit(6),
            Flag::H => self.f.bit(5),
            Flag::C => self.f.bit(4),
        };
        b == 1
    }

    pub fn cf(&self) -> (r: bool)
        ensures
            r == flag_of(self@.f, Flag::C),
    {
        self.flag(Flag::C)
    }

    pub fn hf(&self) -> (r: bool)
        ensures
            r == flag_of(self@.f, Flag::H),
    {
        self.flag(Flag::H)
    }

    pub fn nf(&self) -> (r: bool)
        ensures
            r == flag_of(self@.f, Flag::N),
    {
        self.flag(Flag::N)
    }

    pub fn zf(&self) -> (r: bool)
        ensures
            r == flag_of(self@.f, Flag::Z),
    {
        self.flag(Flag::Z)
    }

    pub fn clear_flags(&mut self)
        ensures
            final(self)@ == (CpuState {
                f: with_flag(
                    with_flag(with_flag(with_flag(old(self)@.f, Flag::Z, false), Flag::N, false), Flag::H, false),
                    Flag::C,
                    false,
                ),
                ..old(self)@
            }),
    {
        self.reset_flag(Flag::Z);
        self.reset_flag(Flag::N);
        self.reset_flag(Flag::H);
        self.reset_flag(Flag::C);
    }

    pub fn af(&self) -> (w: Word)
        ensures
            w.val_spec() == word_of(self@.a, self@.f),
    {
        Word::new(self.a, self.f)
    }

    pub fn hl(&self) -> (w: Word)
        ensures
            w.val_spec() == word_of(self@.h, self@.l),
    {
        Word::new(self.h, self.l)
    }

    pub fn bc(&self) -> (w: Word)
        ensures
            w.val_spec() == word_of(self@.b, self@.c),
    {
        Word::new(self.b, self.c)
    }

    pub fn de(&self) -> (w: Word)
        ensures
            w.val_spec() == word_of(self@.d, self@.e),
    {
        Word::new(self.d, self.e)
    }

    /// Reads the byte at PC over the buses and advances PC, wrapping.
    pub fn fetch(&mut self) -> (r: u8)
        ensures
            r == fetched(old(self)@),
            final(self)@ == fetch_spec(old(self)@),
    {
        let pc = self.pc;
        self.addr_bus.drive(&mut self.mem, pc);
        assert(self.mem == old(self).mem.with_addr_line(pc));
        assert(self.addr_bus == old(self).addr_bus);
        self.pc = self.pc.wrapping_add(1);
        self.data_bus.read(&self.mem)
    }

    /// Reads a little-endian word at PC, advancing PC twice.
    pub fn fetch_word(&mut self) -> (r: u16)
        ensures
            r == word_of(fetched(fetch_spec(old(self)@)), fetched(old(self)@)),
            final(self)@ == fetch_spec(fetch_spec(old(self)@)),
    {
        let low = self.fetch() as u16;
        let high = self.fetch() as u16;
        proof {
            lemma_join(high as u8, low as u8);
        }
        (high << 8) | low
    }
}

impl CPU {
    /// The registers as a snapshot, with no memory entries.
    pub fn state(&self) -> (st: State)
        ensures
            snapshot_of(self@, st),
    {
        State {
            pc: self.pc,
            sp: self.sp,
            a: self.a.0,
            f: self.f.0,
            b: self.b.0,
            c: self.c.0,
            d: self.d.0,
            e: self.e.0,
            h: self.h.0,
            l: self.l.0,
            ie: Some(if self.ie { 1 } else { 0 }),
            ime: if self.ime { 1 } else { 0 },
            ram: Vec::new(),
        }
    }

    /// Takes the registers from a snapshot: IE only when the snapshot has it, a
    /// nonzero value meaning enabled.
    pub fn load_state(&mut self, st: &State)
        ensures
            final(self)@ == loaded(old(self)@, *st),
    {
        self.pc = st.pc;
        self.sp = st.sp;
        self.a.0 = st.a;
        self.f.0 = st.f;
        self.b.0 = st.b;
        self.c.0 = st.c;
        self.d.0 = st.d;
        self.e.0 = st.e;
        self.h.0 = st.h;
        self.l.0 = st.l;
        if let Some(ie) = st.ie {
            match ie {
                0 => self.ie = false,
                _ => self.ie = true,
            }
        }
        match st.ime {
            0 => self.ime = false,
            _ => self.ime = true,
        }
    }
}

/// Whether `st` is the snapshot of processor state `s`: its registers, IE and
/// IME as 0 or 1, and no memory entries.
pub open spec fn snapshot_of(s: CpuState, st: State) -> bool {
    &&& st.pc == s.pc && st.sp == s.sp
    &&& st.a == s.a && st.f == s.f && st.b == s.b && st.c == s.c
    &&& st.d == s.d && st.e == s.e && st.h == s.h && st.l == s.l
    &&& st.ie == Some(if s.ie { 1u8 } else { 0u8 })
    &&& st.ime == (if s.ime { 1u8 } else { 0u8 })
    &&& st.ram@.len() == 0
}

/// The processor state `s` after taking the registers of snapshot `st`: IE only
/// where the snapshot has it, a nonzero value meaning enabled.
pub open spec fn loaded(s: CpuState, st: State) -> CpuState {
    CpuState {
        pc: st.pc,
        sp: st.sp,
        a: st.a,
        f: st.f,
        b: st.b,
        c: st.c,
        d: st.d,
        e: st.e,
        h: st.h,
        l: st.l,
        ie: match st.ie {
            Some(v) => v != 0,
            None => s.ie,
        },
        ime: st.ime != 0,
        ..s
    }
}

/// Loading a processor's own snapshot back changes nothing.
pub proof fn lemma_load_own_state(s: CpuState, st: State)
    requires
        snapshot_of(s, st),
    ensures
        loaded(s, st) == s,
{
}

impl Word {
    pub open spec fn val_spec(self) -> u16 {
        word_of(self.high.0, self.low.0)
    }
}

} // verus!
