use vstd::prelude::*;

use crate::text::{decimal_text, hex2_text, push_decimal, push_hex2};
use crate::utils::bit;

verus! {

/// Why an instruction could not be decoded.
#[derive(Debug, Clone, Copy, PartialEq, Eq, Structural)]
pub enum Error {
    InvalidR8(u8),
    InvalidR16(u8),
    InvalidR16Stk(u8),
    InvalidR16Mem(u8),
    InvalidCond(u8),
    InvalidOpCode(u8),
    Unimplemented(u8),
    Unknown,
}

/// A decoded instruction: its timing, the operands fetched so far and the
/// machine-cycle steps still to run.
#[derive(Debug)]
pub struct Instruction {
    pub opcode: u8,
    pub len: u8,
    pub cycles: (u8, u8),
    pub n8: Option<u8>,
    pub n16_lo: Option<u8>,
    pub n16_hi: Option<u8>,
    pub e: Option<i8>,
    pub steps: Vec<Step>,
    pub eager: bool,
    pub branched: bool,
    pub done: bool,
}

/// An instruction as a value: its fields, each step's operations and whether
/// each step has run.
pub ghost struct InstrView {
    pub opcode: u8,
    pub len: u8,
    pub cycles: (u8, u8),
    pub n8: Option<u8>,
    pub n16_lo: Option<u8>,
    pub n16_hi: Option<u8>,
    pub e: Option<i8>,
    pub steps: Seq<Seq<Op>>,
    pub steps_done: Seq<bool>,
    pub eager: bool,
    pub branched: bool,
    pub done: bool,
}

impl View for Instruction {
    type V = InstrView;

    open spec fn view(&self) -> InstrView {
        InstrView {
            opcode: self.opcode,
            len: self.len,
            cycles: self.cycles,
            n8: self.n8,
            n16_lo: self.n16_lo,
            n16_hi: self.n16_hi,
            e: self.e,
            steps: step_ops(self.steps@),
            steps_done: self.steps@.map_values(|st: Step| st.done),
            eager: self.eager,
            branched: self.branched,
            done: self.done,
        }
    }
}

/// The instruction that `Instruction::decode` builds for a decodable opcode.
pub open spec fn decoded_view(opcode: u8) -> InstrView {
    let d = decoded(opcode)->Some_0;
    InstrView {
        opcode: 0,
        len: d.0,
        cycles: d.1,
        n8: None,
        n16_lo: None,
        n16_hi: None,
        e: None,
        steps: d.3,
        steps_done: Seq::new(d.3.len(), |k: int| false),
        eager: d.2,
        branched: false,
        done: false,
    }
}

/// The operations of each step, in order.
pub open spec fn step_ops(steps: Seq<Step>) -> Seq<Seq<Op>> {
    steps.map_values(|s: Step| s.ops@)
}

/// `i` is a freshly built instruction with the given fields, no operand fetched
/// yet and no step run.
pub open spec fn fresh(
    i: Instruction,
    opcode: u8,
    len: u8,
    cycles: (u8, u8),
    eager: bool,
    steps: Seq<Seq<Op>>,
) -> bool {
    &&& i.opcode == opcode
    &&& i.len == len
    &&& i.cycles == cycles
    &&& i.eager == eager
    &&& step_ops(i.steps@) == steps
    &&& forall|k: int| 0 <= k < i.steps@.len() ==> !(#[trigger] i.steps@[k]).done
    &&& i.n8 is None
    &&& i.n16_lo is None
    &&& i.n16_hi is None
    &&& i.e is None
    &&& !i.branched
    &&& !i.done
}

/// `a` and `b` hold the same fields and steps.
pub open spec fn same_instruction(a: Instruction, b: Instruction) -> bool {
    &&& a.opcode == b.opcode
    &&& a.len == b.len
    &&& a.cycles == b.cycles
    &&& a.n8 == b.n8
    &&& a.n16_lo == b.n16_lo
    &&& a.n16_hi == b.n16_hi
    &&& a.e == b.e
    &&& a.eager == b.eager
    &&& a.branched == b.branched
    &&& a.done == b.done
    &&& step_ops(a.steps@) == step_ops(b.steps@)
    &&& a.steps@.len() == b.steps@.len()
    &&& forall|k: int| 0 <= k < a.steps@.len() ==> (#[trigger] a.steps@[k]).done == b.steps@[k].done
}

/// The word made of a high and a low byte.
pub open spec fn word_of(high: u8, low: u8) -> u16 {
    (high as u16 * 256 + low as u16) as u16
}

impl Instruction {
    pub fn new() -> (i: Instruction)
        ensures
            fresh(i, 0, 1, (4, 0), false, Seq::empty()),
    {
        Instruction::default()
    }

    /// The cycles taken: the branch count once the instruction has branched.
    pub fn cycles(&self) -> (r: u8)
        ensures
            r == if self.branched {
                self.cycles.1
            } else {
                self.cycles.0
            },
    {
        match self.branched {
            false => self.cycles.0,
            true => self.cycles.1,
        }
    }

    pub fn branch_cycles(&self) -> (r: u8)
        ensures
            r == self.cycles.1,
    {
        self.cycles.1
    }

    pub fn steps(&self) -> (r: &[Step])
        ensures
            r@ == self.steps@,
    {
        self.steps.as_slice()
    }

    /// The steps, to be changed in place; the other fields stay as they are.
    pub fn steps_mut(&mut self) -> (r: &mut [Step])
        ensures
            r@ == old(self).steps@,
            final(self).steps@ == final(r)@,
            final(self).opcode == old(self).opcode,
            final(self).len == old(self).len,
            final(self).cycles == old(self).cycles,
            final(self).n8 == old(self).n8,
            final(self).n16_lo == old(self).n16_lo,
            final(self).n16_hi == old(self).n16_hi,
            final(self).e == old(self).e,
            final(self).eager == old(self).eager,
            final(self).branched == old(self).branched,
            final(self).done == old(self).done,
    {
        self.steps.as_mut_slice()
    }

    pub fn done(&self) -> (r: bool)
        ensures
            r == self.done,
    {
        self.done
    }

    pub fn eager(&self) -> (r: bool)
        ensures
            r == self.eager,
    {
        self.eager
    }

    pub fn complete(&mut self)
        ensures
            *final(self) == (Instruction { done: true, ..*old(self) }),
    {
        self.done = true
    }

    /// Marks step `k` as run.
    pub fn set_step_done(&mut self, k: usize)
        requires
            k < old(self).steps@.len(),
        ensures
            final(self).steps@ == old(self).steps@.update(
                k as int,
                Step { done: true, ..old(self).steps@[k as int] },
            ),
            final(self).opcode == old(self).opcode,
            final(self).len == old(self).len,
            final(self).cycles == old(self).cycles,
            final(self).n8 == old(self).n8,
            final(self).n16_lo == old(self).n16_lo,
            final(self).n16_hi == old(self).n16_hi,
            final(self).e == old(self).e,
            final(self).eager == old(self).eager,
            final(self).branched == old(self).branched,
            final(self).done == old(self).done,
            final(self)@ == (InstrView {
                steps_done: old(self)@.steps_done.update(k as int, true),
                ..old(self)@
            }),
    {
        self.steps[k].done = true;
        proof {
            assert(step_ops(self.steps@) =~= step_ops(old(self).steps@));
            assert(self@.steps_done =~= old(self)@.steps_done.update(k as int, true));
        }
    }

    pub fn set_n8(&mut self, n: u8)
        ensures
            *final(self) == (Instruction { n8: Some(n), ..*old(self) }),
    {
        self.n8 = Some(n)
    }

    pub fn set_n16_lo(&mut self, n: u8)
        ensures
            *final(self) == (Instruction { n16_lo: Some(n), ..*old(self) }),
    {
        self.n16_lo = Some(n)
    }

    pub fn set_n16_hi(&mut self, n: u8)
        ensures
            *final(self) == (Instruction { n16_hi: Some(n), ..*old(self) }),
    {
        self.n16_hi = Some(n)
    }

    /// The 16-bit operand from its two fetched bytes.
    pub fn n16(&self) -> (r: u16)
        requires
            self.n16_lo is Some,
            self.n16_hi is Some,
        ensures
            r == word_of(self.n16_hi->0, self.n16_lo->0),
    {
        let low = self.n16_lo.unwrap() as u16;
        let high = self.n16_hi.unwrap() as u16;
        proof {
            bit::lemma_join_bytes(high as u8, low as u8, 0);
        }
        (high << 8) | low
    }

    pub fn n16_lo(&self) -> (r: u8)
        requires
            self.n16_lo is Some,
        ensures
            r == self.n16_lo->0,
    {
        self.n16_lo.unwrap()
    }

    pub fn n16_hi(&self) -> (r: u8)
        requires
            self.n16_hi is Some,
        ensures
            r == self.n16_hi->0,
    {
        self.n16_hi.unwrap()
    }

    pub fn n8(&self) -> (r: u8)
        requires
            self.n8 is Some,
        ensures
            r == self.n8->0,
    {
        self.n8.unwrap()
    }

    pub fn e(&self) -> (r: i8)
        requires
            self.e is Some,
        ensures
            r == self.e->0,
    {
        self.e.unwrap()
    }

    pub fn set_e(&mut self, e: i8)
        ensures
            *final(self) == (Instruction { e: Some(e), ..*old(self) }),
    {
        self.e = Some(e)
    }
}

impl Default for Instruction {
    fn default() -> (i: Instruction)
        ensures
            fresh(i, 0, 1, (4, 0), false, Seq::empty()),
    {
        let i = Instruction {
            opcode: 0,
            len: 1,
            cycles: (4, 0),
            n8: None,
            e: None,
            n16_lo: None,
            n16_hi: None,
            steps: Vec::new(),
            eager: false,
            branched: false,
            done: false,
        };
        assert(step_ops(i.steps@) =~= Seq::empty());
        i
    }
}

/// A machine-cycle step: operations that run together.
#[derive(Debug)]
pub struct Step {
    pub ops: Vec<Op>,
    pub done: bool,
}

impl Step {
    pub fn with_ops(ops: Vec<Op>) -> (s: Step)
        ensures
            s.ops@ == ops@,
            !s.done,
    {
        Step { ops, done: false }
    }

    pub fn ops(&self) -> (r: &[Op])
        ensures
            r@ == self.ops@,
    {
        self.ops.as_slice()
    }

    pub fn is_done(&self) -> (r: bool)
        ensures
            r == self.done,
    {
        self.done
    }

    pub fn set_done(&mut self)
        ensures
            final(self).ops@ == old(self).ops@,
            final(self).done,
    {
        self.done = true
    }
}

#[derive(Debug, Clone, Copy, PartialEq, Eq, Structural)]
pub enum Op {
    NOP,
    Add(Add),
    Sub(Sub),
    ADC(ADC),
    SBC(SBC),
    AND(Register),
    XOR(Register),
    OR(Register),
    CP(Register),
    Fetch(Fetch),
    Assert(Register),
    AssertInc(Register),
    AssertPreDec(Register),
    AssertPreInc(Register),
    SetN(u8),
    Load(Load),
    Inc(Inc),
    Dec(Dec),
    RLC(Register),
    RL(Register),
    RRC(Register),
    RR(Register),
    CheckCond(Cond),
    Stop,
    Halt,
    DAA,
    SCF,
    CPL,
    CCF,
}

#[derive(Debug, Clone, Copy, PartialEq, Eq, Structural)]
pub enum Fetch {
    N,
    NnLo,
    NnHi,
    E,
}

#[derive(Debug, Clone, Copy, PartialEq, Eq, Structural)]
pub enum Add {
    Memory(Register, Register),
    Register(Register, Register),
    RegisterLo(Register, Register),
    RegisterHi(Register, Register),
}

#[derive(Debug, Clone, Copy, PartialEq, Eq, Structural)]
pub enum Sub {
    Memory(Register, Register),
    Register(Register, Register),
}

#[derive(Debug, Clone, Copy, PartialEq, Eq, Structural)]
pub enum ADC {
    Memory(Register, Register),
    Register(Register, Register),
}

#[derive(Debug, Clone, Copy, PartialEq, Eq, Structural)]
pub enum SBC {
    Memory(Register, Register),
    Register(Register, Register),
}

#[derive(Debug, Clone, Copy, PartialEq, Eq, Structural)]
pub enum Dec {
    Memory,
    Register(Register),
}

#[derive(Debug, Clone, Copy, PartialEq, Eq, Structural)]
pub enum Inc {
    Memory,
    Register(Register),
}

#[derive(Debug, Clone, Copy, PartialEq, Eq, Structural)]
pub enum Load {
    Register(Register, Register),
    Memory(Register),
    MemoryLo(Register),
    MemoryHi(Register),
}

/// An operand of a step: a CPU register, a register pair, a fetched operand or
/// the byte on the data bus.
#[derive(Debug, Clone, Copy, PartialEq, Eq, Structural)]
pub enum Register {
    A,
    B,
    C,
    D,
    E,
    F,
    H,
    L,
    BC,
    HL,
    HLI,
    HLD,
    DE,
    AF,
    SP,
    SPDec,
    PC,
    N,
    NN,
    NnLo,
    NnHi,
    NE,
    Memory,
}

impl Register {
    pub open spec fn spec_is_byte(self) -> bool {
        match self {
            Register::A | Register::B | Register::C | Register::D | Register::E | Register::F
            | Register::H | Register::L | Register::N | Register::NE | Register::NnLo
            | Register::NnHi | Register::Memory => true,
            _ => false,
        }
    }

    pub open spec fn spec_is_word(self) -> bool {
        match self {
            Register::BC | Register::HL | Register::DE | Register::AF | Register::SP
            | Register::PC | Register::NN => true,
            _ => false,
        }
    }

    pub fn is_byte(&self) -> (r: bool)
        ensures
            r == self.spec_is_byte(),
    {
        match self {
            Self::A | Self::B | Self::C | Self::D | Self::E | Self::F | Self::H | Self::L | Self::N
            | Self::NE | Self::NnLo | Self::NnHi | Self::Memory => true,
            _ => false,
        }
    }

    pub fn is_word(&self) -> (r: bool)
        ensures
            r == self.spec_is_word(),
    {
        match self {
            Self::BC | Self::HL | Self::DE | Self::AF | Self::SP | Self::PC | Self::NN => true,
            _ => false,
        }
    }
}


#[derive(Debug, Clone, Copy, PartialEq, Eq, Structural)]
pub enum R8 {
    B,
    C,
    D,
    E,
    H,
    L,
    HL,
    A,
    N8,
}

/// The 8-bit operand that a 3-bit field of an opcode encodes.
pub open spec fn r8_of(value: u8) -> Result<R8, Error> {
    if value == 0 {
        Ok(R8::B)
    } else if value == 1 {
        Ok(R8::C)
    } else if value == 2 {
        Ok(R8::D)
    } else if value == 3 {
        Ok(R8::E)
    } else if value == 4 {
        Ok(R8::H)
    } else if value == 5 {
        Ok(R8::L)
    } else if value == 6 {
        Ok(R8::HL)
    } else if value == 7 {
        Ok(R8::A)
    } else {
        Err(Error::InvalidR8(value))
    }
}

impl R8 {
    pub fn from_bits(value: u8) -> (r: Result<R8, Error>)
        ensures
            r == r8_of(value),
    {
        match value {
            0 => Ok(R8::B),
            1 => Ok(R8::C),
            2 => Ok(R8::D),
            3 => Ok(R8::E),
            4 => Ok(R8::H),
            5 => Ok(R8::L),
            6 => Ok(R8::HL),
            7 => Ok(R8::A),
            _ => Err(Error::InvalidR8(value)),
        }
    }

    pub fn as_str(&self) -> (s: &'static str)
        ensures
            s@ == r8_text(*self),
    {
        match self {
            R8::B => "b",
            R8::C => "c",
            R8::D => "d",
            R8::E => "e",
            R8::H => "h",
            R8::L => "l",
            R8::HL => "[hl]",
            R8::A => "a",
            R8::N8 => "n8",
        }
    }
}

impl TryFrom<u8> for R8 {
    type Error = Error;

    fn try_from(value: u8) -> (r: Result<R8, Error>) {
        R8::from_bits(value)
    }
}

impl vstd::std_specs::convert::TryFromSpecImpl<u8> for R8 {
    open spec fn obeys_try_from_spec() -> bool {
        true
    }

    open spec fn try_from_spec(v: u8) -> Result<R8, Error> {
        r8_of(v)
    }
}

pub fn r8_values() -> (v: Vec<R8>)
    ensures
        v@ == seq![R8::B, R8::C, R8::D, R8::E, R8::H, R8::L, R8::HL, R8::A, R8::N8],
{
    let v = vec![R8::B, R8::C, R8::D, R8::E, R8::H, R8::L, R8::HL, R8::A, R8::N8];
    assert(v@ =~= seq![R8::B, R8::C, R8::D, R8::E, R8::H, R8::L, R8::HL, R8::A, R8::N8]);
    v
}

#[derive(Debug, Clone, Copy, PartialEq, Eq, Structural)]
pub enum Mem {
    HL,
    BC,
    DE,
    SP,
    HLI,
    HLD,
    SPN8,
    N16,
    N8,
    C,
}

pub open spec fn r16mem_of(value: u8) -> Result<Mem, Error> {
    if value == 0 {
        Ok(Mem::BC)
    } else if value == 1 {
        Ok(Mem::DE)
    } else if value == 2 {
        Ok(Mem::HLI)
    } else if value == 3 {
        Ok(Mem::HLD)
    } else {
        Err(Error::InvalidR16Mem(value))
    }
}

impl Mem {
    pub fn r16mem(value: u8) -> (r: Result<Mem, Error>)
        ensures
            r == r16mem_of(value),
    {
        match value {
            0 => Ok(Mem::BC),
            1 => Ok(Mem::DE),
            2 => Ok(Mem::HLI),
            3 => Ok(Mem::HLD),
            _ => Err(Error::InvalidR16Mem(value)),
        }
    }

    pub fn as_str(&self) -> (s: &'static str)
        ensures
            s@ == mem_text(*self),
    {
        match self {
            Mem::C => "[c]",
            Mem::N16 => "[n16]",
            Mem::N8 => "[n8]",
            Mem::DE => "[de]",
            Mem::BC => "[bc]",
            Mem::SP => "[sp]",
            Mem::HL => "[hl]",
            Mem::HLI => "[hl+]",
            Mem::HLD => "[hl-]",
            Mem::SPN8 => "sp + n8",
        }
    }
}

#[derive(Debug, Clone, Copy, PartialEq, Eq, Structural)]
pub enum R16 {
    BC,
    DE,
    HL,
    SP,
    AF,
    PC,
    N16,
}

pub open spec fn r16stk_of(v: u8) -> Result<R16, Error> {
    if v == 0 {
        Ok(R16::BC)
    } else if v == 1 {
        Ok(R16::DE)
    } else if v == 2 {
        Ok(R16::HL)
    } else if v == 3 {
        Ok(R16::AF)
    } else {
        Err(Error::InvalidR16Stk(v))
    }
}

pub open spec fn r16_of(v: u8) -> Result<R16, Error> {
    if v == 0 {
        Ok(R16::BC)
    } else if v == 1 {
        Ok(R16::DE)
    } else if v == 2 {
        Ok(R16::HL)
    } else if v == 3 {
        Ok(R16::SP)
    } else {
        Err(Error::InvalidR16(v))
    }
}

impl R16 {
    pub fn r16stk(v: u8) -> (r: Result<R16, Error>)
        ensures
            r == r16stk_of(v),
    {
        match v {
            0 => Ok(R16::BC),
            1 => Ok(R16::DE),
            2 => Ok(R16::HL),
            3 => Ok(R16::AF),
            _ => Err(Error::InvalidR16Stk(v)),
        }
    }

    pub fn from_bits(value: u8) -> (r: Result<R16, Error>)
        ensures
            r == r16_of(value),
    {
        match value {
            0 => Ok(R16::BC),
            1 => Ok(R16::DE),
            2 => Ok(R16::HL),
            3 => Ok(R16::SP),
            _ => Err(Error::InvalidR16(value)),
        }
    }

    pub fn as_str(&self) -> (s: &'static str)
        ensures
            s@ == r16_text(*self),
    {
        match self {
            R16::BC => "bc",
            R16::DE => "de",
            R16::HL => "hl",
            R16::SP => "sp",
            R16::AF => "af",
            R16::PC => "pc",
            R16::N16 => "n16",
        }
    }
}

impl TryFrom<u8> for R16 {
    type Error = Error;

    fn try_from(value: u8) -> (r: Result<R16, Error>) {
        R16::from_bits(value)
    }
}

impl vstd::std_specs::convert::TryFromSpecImpl<u8> for R16 {
    open spec fn obeys_try_from_spec() -> bool {
        true
    }

    open spec fn try_from_spec(v: u8) -> Result<R16, Error> {
        r16_of(v)
    }
}

#[derive(Debug, Clone, Copy, PartialEq, Eq, Structural)]
pub enum Cond {
    NZ,
    Z,
    NC,
    C,
}

pub open spec fn cond_of(v: u8) -> Result<Cond, Error> {
    if v == 0 {
        Ok(Cond::NZ)
    } else if v == 1 {
        Ok(Cond::Z)
    } else if v == 2 {
        Ok(Cond::NC)
    } else if v == 3 {
        Ok(Cond::C)
    } else {
        Err(Error::InvalidCond(v))
    }
}

impl Cond {
    pub fn from_bits(value: u8) -> (r: Result<Cond, Error>)
        ensures
            r == cond_of(value),
    {
        match value {
            0 => Ok(Cond::NZ),
            1 => Ok(Cond::Z),
            2 => Ok(Cond::NC),
            3 => Ok(Cond::C),
            _ => Err(Error::InvalidCond(value)),
        }
    }

    pub fn as_str(&self) -> (s: &'static str)
        ensures
            s@ == cond_text(*self),
    {
        match self {
            Cond::NZ => "nz",
            Cond::Z => "z",
            Cond::NC => "nc",
            Cond::C => "c",
        }
    }
}

impl TryFrom<u8> for Cond {
    type Error = Error;

    fn try_from(value: u8) -> (r: Result<Cond, Error>) {
        Cond::from_bits(value)
    }
}

impl vstd::std_specs::convert::TryFromSpecImpl<u8> for Cond {
    open spec fn obeys_try_from_spec() -> bool {
        true
    }

    open spec fn try_from_spec(v: u8) -> Result<Cond, Error> {
        cond_of(v)
    }
}

/// A bit index operand, taken from the low two bits of its source.
#[derive(Debug, Clone, Copy, PartialEq, Eq, Structural)]
pub struct B3(pub u8);

impl B3 {
    pub fn val(&self) -> (r: u8)
        ensures
            r == self.0,
    {
        self.0
    }
}

impl From<u8> for B3 {
    fn from(value: u8) -> (r: B3) {
        B3(value & 0x3)
    }
}

impl vstd::std_specs::convert::FromSpecImpl<u8> for B3 {
    open spec fn obeys_from_spec() -> bool {
        true
    }

    open spec fn from_spec(v: u8) -> B3 {
        B3(v & 0x3)
    }
}

/// A restart target: eight times its source.
#[derive(Debug, Clone, Copy, PartialEq, Eq, Structural)]
pub struct T3(pub u8);

impl T3 {
    pub fn val(&self) -> (r: u8)
        ensures
            r == self.0,
    {
        self.0
    }

    /// The restart target for a 3-bit field; the product must fit in a byte.
    pub fn from_field(value: u8) -> (r: T3)
        requires
            value < 32,
        ensures
            r.0 == value * 8,
    {
        T3(value * 8)
    }
}

/// The assembly text of an 8-bit operand.
pub open spec fn r8_text(v: R8) -> Seq<char> {
    match v {
        R8::B => "b"@,
        R8::C => "c"@,
        R8::D => "d"@,
        R8::E => "e"@,
        R8::H => "h"@,
        R8::L => "l"@,
        R8::HL => "[hl]"@,
        R8::A => "a"@,
        R8::N8 => "n8"@,
    }
}

/// The assembly text of a memory operand.
pub open spec fn mem_text(v: Mem) -> Seq<char> {
    match v {
        Mem::C => "[c]"@,
        Mem::N16 => "[n16]"@,
        Mem::N8 => "[n8]"@,
        Mem::DE => "[de]"@,
        Mem::BC => "[bc]"@,
        Mem::SP => "[sp]"@,
        Mem::HL => "[hl]"@,
        Mem::HLI => "[hl+]"@,
        Mem::HLD => "[hl-]"@,
        Mem::SPN8 => "sp + n8"@,
    }
}

/// The assembly text of a 16-bit operand.
pub open spec fn r16_text(v: R16) -> Seq<char> {
    match v {
        R16::BC => "bc"@,
        R16::DE => "de"@,
        R16::HL => "hl"@,
        R16::SP => "sp"@,
        R16::AF => "af"@,
        R16::PC => "pc"@,
        R16::N16 => "n16"@,
    }
}

/// The assembly text of a condition.
pub open spec fn cond_text(v: Cond) -> Seq<char> {
    match v {
        Cond::NZ => "nz"@,
        Cond::Z => "z"@,
        Cond::NC => "nc"@,
        Cond::C => "c"@,
    }
}

#[derive(Clone, Copy, Debug, PartialEq, Eq, Structural)]
pub enum ADD {
    A(R8),
    HL(R16),
    SP,
}

#[derive(Clone, Copy, Debug, PartialEq, Eq, Structural)]
pub enum LD {
    R8(R8, R8),
    R16(R16, R16),
    MemR8(Mem, R8),
    R8Mem(R8, Mem),
    MemR16(Mem, R16),
    HLSPN,
}

#[derive(Clone, Copy, Debug, PartialEq, Eq, Structural)]
pub enum LDH {
    A(Mem),
    Mem(Mem),
}

#[derive(Clone, Copy, Debug, PartialEq, Eq, Structural)]
pub enum INC {
    R8(R8),
    R16(R16),
}

#[derive(Clone, Copy, Debug, PartialEq, Eq, Structural)]
pub enum DEC {
    R8(R8),
    R16(R16),
}

#[derive(Clone, Copy, Debug, PartialEq, Eq, Structural)]
pub enum JR {
    N8,
    Cond(Cond),
}

impl B3 {
    /// The bit number in decimal.
    pub fn to_string(&self) -> (s: String)
        ensures
            s@ == decimal_text(self.0 as nat),
    {
        let mut s = String::new();
        push_decimal(&mut s, self.0);
        s
    }
}

impl T3 {
    /// The restart target as `0x` and two hexadecimal digits.
    pub fn to_string(&self) -> (s: String)
        ensures
            s@ == "0x"@ + hex2_text(self.0),
    {
        let mut s = String::from_str("0x");
        push_hex2(&mut s, self.0);
        s
    }
}

/// The assembly text of an addition.
pub open spec fn add_text(a: ADD) -> Seq<char> {
    match a {
        ADD::A(r) => "add "@ + "a, "@ + r8_text(r),
        ADD::HL(r) => "add "@ + "hl, "@ + r16_text(r),
        ADD::SP => "add "@ + "sp, e8"@,
    }
}

/// The assembly text of a load.
pub open spec fn ld_text(l: LD) -> Seq<char> {
    match l {
        LD::R16(a, b) => "ld "@ + r16_text(a) + ", "@ + r16_text(b),
        LD::R8(a, b) => "ld "@ + r8_text(a) + ", "@ + r8_text(b),
        LD::MemR8(a, b) => "ld "@ + mem_text(a) + ", "@ + r8_text(b),
        LD::R8Mem(a, b) => "ld "@ + r8_text(a) + ", "@ + mem_text(b),
        LD::MemR16(a, b) => "ld "@ + mem_text(a) + ", "@ + r16_text(b),
        LD::HLSPN => "ld "@ + "hl, sp + n8"@,
    }
}

/// The assembly text of a high-page load.
pub open spec fn ldh_text(l: LDH) -> Seq<char> {
    match l {
        LDH::A(m) => "ldh "@ + "a, "@ + mem_text(m),
        LDH::Mem(m) => "ldh "@ + mem_text(m) + ", a"@,
    }
}

/// The assembly text of an increment.
pub open spec fn inc_text(i: INC) -> Seq<char> {
    match i {
        INC::R8(r) => "inc "@ + r8_text(r),
        INC::R16(r) => "inc "@ + r16_text(r),
    }
}

/// The assembly text of a decrement.
pub open spec fn dec_text(d: DEC) -> Seq<char> {
    match d {
        DEC::R8(r) => "dec "@ + r8_text(r),
        DEC::R16(r) => "dec "@ + r16_text(r),
    }
}

/// The assembly text of a relative jump.
pub open spec fn jr_text(j: JR) -> Seq<char> {
    match j {
        JR::N8 => "jr "@ + "n8"@,
        JR::Cond(c) => "jr "@ + cond_text(c) + ", n8"@,
    }
}

impl ADD {
    pub fn to_string(&self) -> (s: String)
        ensures
            s@ == add_text(*self),
    {
        let mut s = String::from_str("add ");
        match self {
            ADD::A(r) => {
                s.append("a, ");
                s.append(r.as_str());
            },
            ADD::HL(r) => {
                s.append("hl, ");
                s.append(r.as_str());
            },
            ADD::SP => s.append("sp, e8"),
        }
        s
    }
}

impl LD {
    pub fn to_string(&self) -> (s: String)
        ensures
            s@ == ld_text(*self),
    {
        let mut s = String::from_str("ld ");
        match self {
            LD::R16(a, b) => {
                s.append(a.as_str());
                s.append(", ");
                s.append(b.as_str());
            },
            LD::R8(a, b) => {
                s.append(a.as_str());
                s.append(", ");
                s.append(b.as_str());
            },
            LD::MemR8(a, b) => {
                s.append(a.as_str());
                s.append(", ");
                s.append(b.as_str());
            },
            LD::R8Mem(a, b) => {
                s.append(a.as_str());
                s.append(", ");
                s.append(b.as_str());
            },
            LD::MemR16(a, b) => {
                s.append(a.as_str());
                s.append(", ");
                s.append(b.as_str());
            },
            LD::HLSPN => s.append("hl, sp + n8"),
        }
        s
    }
}

impl LDH {
    pub fn to_string(&self) -> (s: String)
        ensures
            s@ == ldh_text(*self),
    {
        let mut s = String::from_str("ldh ");
        match self {
            LDH::A(m) => {
                s.append("a, ");
                s.append(m.as_str());
            },
            LDH::Mem(m) => {
                s.append(m.as_str());
                s.append(", a");
            },
        }
        s
    }
}

impl INC {
    pub fn to_string(&self) -> (s: String)
        ensures
            s@ == inc_text(*self),
    {
        let mut s = String::from_str("inc ");
        match self {
            INC::R8(r) => s.append(r.as_str()),
            INC::R16(r) => s.append(r.as_str()),
        }
        s
    }
}

impl DEC {
    pub fn to_string(&self) -> (s: String)
        ensures
            s@ == dec_text(*self),
    {
        let mut s = String::from_str("dec ");
        match self {
            DEC::R8(r) => s.append(r.as_str()),
            DEC::R16(r) => s.append(r.as_str()),
        }
        s
    }
}

impl JR {
    pub fn to_string(&self) -> (s: String)
        ensures
            s@ == jr_text(*self),
    {
        let mut s = String::from_str("jr ");
        match self {
            JR::N8 => s.append("n8"),
            JR::Cond(c) => {
                s.append(c.as_str());
                s.append(", n8");
            },
        }
        s
    }
}

} // verus!
verus! {

/// The operation lists of a list of operation vectors.
pub open spec fn op_lists(v: Seq<Vec<Op>>) -> Seq<Seq<Op>> {
    v.map_values(|ops: Vec<Op>| ops@)
}

/// Builds steps that have not run, one for each operation list.
fn steps_from(mut opss: Vec<Vec<Op>>) -> (r: Vec<Step>)
    ensures
        step_ops(r@) == op_lists(opss@),
        forall|k: int| 0 <= k < r@.len() ==> !(#[trigger] r@[k]).done,
{
    let ghost orig = opss@;
    let mut r: Vec<Step> = Vec::new();
    let mut rev: Vec<Step> = Vec::new();
    while opss.len() > 0
        invariant
            opss@.len() + rev@.len() == orig.len(),
            opss@ == orig.subrange(0, opss@.len() as int),
            forall|k: int|
                0 <= k < rev@.len() ==> (#[trigger] rev@[k]).ops@ == orig[orig.len() - 1 - k]@,
            forall|k: int| 0 <= k < rev@.len() ==> !(#[trigger] rev@[k]).done,
        decreases opss@.len(),
    {
        let ops = opss.pop().unwrap();
        rev.push(Step::with_ops(ops));
    }
    while rev.len() > 0
        invariant
            rev@.len() + r@.len() == orig.len(),
            forall|k: int|
                0 <= k < rev@.len() ==> (#[trigger] rev@[k]).ops@ == orig[orig.len() - 1 - k]@,
            forall|k: int| 0 <= k < rev@.len() ==> !(#[trigger] rev@[k]).done,
            forall|k: int| 0 <= k < r@.len() ==> (#[trigger] r@[k]).ops@ == orig[k]@,
            forall|k: int| 0 <= k < r@.len() ==> !(#[trigger] r@[k]).done,
        decreases rev@.len(),
    {
        let s = rev.pop().unwrap();
        r.push(s);
    }
    assert(step_ops(r@) =~= op_lists(orig));
    r
}

/// A fresh instruction with the given timing and steps.
fn build(len: u8, cycles: (u8, u8), eager: bool, opss: Vec<Vec<Op>>) -> (i: Instruction)
    ensures
        fresh(i, 0, len, cycles, eager, op_lists(opss@)),
{
    let steps = steps_from(opss);
    Instruction {
        opcode: 0,
        len,
        cycles,
        n8: None,
        n16_lo: None,
        n16_hi: None,
        e: None,
        steps,
        eager,
        branched: false,
        done: false,
    }
}

/// The source operand that the low nibble of an 8-bit arithmetic or load opcode names.
pub open spec fn src_of(low: u8) -> Register {
    let k = low % 8;
    if k == 0 {
        Register::B
    } else if k == 1 {
        Register::C
    } else if k == 2 {
        Register::D
    } else if k == 3 {
        Register::E
    } else if k == 4 {
        Register::H
    } else if k == 5 {
        Register::L
    } else if k == 6 {
        Register::HL
    } else {
        Register::A
    }
}

fn src_from(opcode: u8) -> (r: Register)
    ensures
        r == src_of(opcode & 0xF),
{
    proof {
        bit::lemma_byte_fields(opcode);
    }
    match opcode & 0xF {
        0x0 | 0x8 => Register::B,
        0x1 | 0x9 => Register::C,
        0x2 | 0xA => Register::D,
        0x3 | 0xB => Register::E,
        0x4 | 0xC => Register::H,
        0x5 | 0xD => Register::L,
        0x6 | 0xE => Register::HL,
        _ => Register::A,
    }
}

/// The destination of `ld r, r'` (opcodes 0x40 to 0x7F).
pub open spec fn ld_dest_of(opcode: u8) -> Register {
    if opcode < 0x48 {
        Register::B
    } else if opcode < 0x50 {
        Register::C
    } else if opcode < 0x58 {
        Register::D
    } else if opcode < 0x60 {
        Register::E
    } else if opcode < 0x68 {
        Register::H
    } else if opcode < 0x70 {
        Register::L
    } else if opcode < 0x78 {
        Register::HL
    } else {
        Register::A
    }
}

/// The register of `inc r`, `dec r` and `ld r, n` (bits 3 to 5 of the opcode).
pub open spec fn mid_reg_of(opcode: u8) -> Register {
    let k = (opcode / 8) % 8;
    if k == 0 {
        Register::B
    } else if k == 1 {
        Register::C
    } else if k == 2 {
        Register::D
    } else if k == 3 {
        Register::E
    } else if k == 4 {
        Register::H
    } else if k == 5 {
        Register::L
    } else if k == 6 {
        Register::HL
    } else {
        Register::A
    }
}

/// The register pair of opcodes 0xX1, 0xX3 and 0xX9 (bits 4 and 5).
pub open spec fn pair_of(opcode: u8) -> Register {
    let k = (opcode / 16) % 4;
    if k == 0 {
        Register::BC
    } else if k == 1 {
        Register::DE
    } else if k == 2 {
        Register::HL
    } else {
        Register::SP
    }
}

/// The stack pair of `push` and `pop` (bits 4 and 5), as (high, low).
pub open spec fn stack_pair_of(opcode: u8) -> (Register, Register) {
    let k = (opcode / 16) % 4;
    if k == 0 {
        (Register::B, Register::C)
    } else if k == 1 {
        (Register::D, Register::E)
    } else if k == 2 {
        (Register::H, Register::L)
    } else {
        (Register::A, Register::F)
    }
}

/// The condition of `jr cc, e` (bits 3 and 4).
pub open spec fn jr_cond_of(opcode: u8) -> Cond {
    let k = (opcode / 8) % 4;
    if k == 0 {
        Cond::NZ
    } else if k == 1 {
        Cond::Z
    } else if k == 2 {
        Cond::NC
    } else {
        Cond::C
    }
}

/// The steps of an 8-bit `a op r` instruction family, given the operation for a
/// register source, whether the family has an immediate form, and the length and
/// cycles that apply: (len, cycles, eager, steps).
pub open spec fn alu_shape(src: Register, op: Op, mem_op: Op) -> (u8, (u8, u8), bool, Seq<Seq<Op>>) {
    if src == Register::HL {
        (1, (8, 0), false, seq![seq![Op::Assert(Register::HL), mem_op]])
    } else if src == Register::N {
        (2, (8, 0), false, seq![seq![Op::Fetch(Fetch::N), op]])
    } else {
        (1, (4, 0), true, seq![seq![op]])
    }
}

/// The (len, cycles, eager, steps) that `Instruction::decode` gives an opcode,
/// or `None` for an opcode that it does not decode.
pub open spec fn decoded(opcode: u8) -> Option<(u8, (u8, u8), bool, Seq<Seq<Op>>)> {
    let low = opcode % 16;
    let hi = opcode / 16;
    if opcode == 0x00 {
        Some((1, (4, 0), false, seq![Seq::empty()]))
    } else if opcode == 0x10 {
        Some((1, (4, 0), false, seq![seq![Op::Stop]]))
    } else if opcode < 0x40 && low == 1 {
        Some(
            (
                3,
                (12, 0),
                false,
                seq![
                    seq![Op::Fetch(Fetch::NnLo)],
                    seq![Op::Fetch(Fetch::NnHi), Op::Load(Load::Register(pair_of(opcode), Register::NN))],
                ],
            ),
        )
    } else if opcode < 0x40 && low == 2 {
        let r = if hi == 0 {
            Register::BC
        } else if hi == 1 {
            Register::DE
        } else if hi == 2 {
            Register::HLI
        } else {
            Register::HLD
        };
        Some((1, (8, 0), false, seq![seq![Op::Assert(r), Op::Load(Load::Memory(Register::A))]]))
    } else if opcode < 0x40 && low == 3 {
        Some((1, (8, 0), false, seq![seq![Op::Inc(Inc::Register(pair_of(opcode)))]]))
    } else if opcode < 0x40 && (low == 4 || low == 0xC) {
        let r = mid_reg_of(opcode);
        if r == Register::HL {
            Some((1, (12, 0), false, seq![seq![Op::Assert(Register::HL)], seq![Op::Inc(Inc::Memory)]]))
        } else {
            Some((1, (4, 0), true, seq![seq![Op::Inc(Inc::Register(r))]]))
        }
    } else if opcode < 0x40 && (low == 5 || low == 0xD) {
        let r = mid_reg_of(opcode);
        if r == Register::HL {
            Some((1, (12, 0), false, seq![seq![Op::Assert(Register::HL)], seq![Op::Dec(Dec::Memory)]]))
        } else {
            Some((1, (4, 0), true, seq![seq![Op::Dec(Dec::Register(r))]]))
        }
    } else if opcode < 0x40 && (low == 6 || low == 0xE) {
        let r = mid_reg_of(opcode);
        if r == Register::HL {
            Some(
                (
                    2,
                    (12, 0),
                    false,
                    seq![
                        seq![Op::Fetch(Fetch::N)],
                        seq![Op::Assert(Register::HL), Op::Load(Load::Memory(Register::N))],
                    ],
                ),
            )
        } else {
            Some((2, (8, 0), false, seq![seq![Op::Fetch(Fetch::N), Op::Load(Load::Register(r, Register::N))]]))
        }
    } else if opcode < 0x40 && low == 9 {
        Some((1, (8, 0), false, seq![seq![Op::Add(Add::Register(Register::HL, pair_of(opcode)))]]))
    } else if opcode == 0x07 {
        Some((1, (4, 0), true, seq![seq![Op::RLC(Register::A)]]))
    } else if opcode == 0x17 {
        Some((1, (4, 0), true, seq![seq![Op::RL(Register::A)]]))
    } else if opcode == 0x27 {
        Some((1, (4, 0), true, seq![seq![Op::DAA]]))
    } else if opcode == 0x37 {
        Some((1, (4, 0), true, seq![seq![Op::SCF]]))
    } else if opcode == 0x0F {
        Some((1, (4, 0), true, seq![seq![Op::RRC(Register::A)]]))
    } else if opcode == 0x1F {
        Some((1, (4, 0), true, seq![seq![Op::RR(Register::A)]]))
    } else if opcode == 0x2F {
        Some((1, (4, 0), true, seq![seq![Op::CPL]]))
    } else if opcode == 0x3F {
        Some((1, (4, 0), true, seq![seq![Op::CCF]]))
    } else if opcode == 0x08 {
        Some(
            (
                3,
                (20, 0),
                false,
                seq![
                    seq![Op::Fetch(Fetch::NnLo)],
                    seq![Op::Fetch(Fetch::NnHi)],
                    seq![Op::Assert(Register::NN), Op::Load(Load::MemoryLo(Register::SP))],
                    seq![Op::AssertInc(Register::NN), Op::Load(Load::MemoryHi(Register::SP))],
                ],
            ),
        )
    } else if opcode == 0x18 {
        Some(
            (
                2,
                (12, 0),
                false,
                seq![
                    seq![Op::Fetch(Fetch::E)],
                    seq![Op::Add(Add::Register(Register::PC, Register::NE))],
                ],
            ),
        )
    } else if opcode == 0x20 || opcode == 0x28 || opcode == 0x30 || opcode == 0x38 {
        Some(
            (
                2,
                (8, 12),
                false,
                seq![
                    seq![Op::Fetch(Fetch::E)],
                    seq![
                        Op::CheckCond(jr_cond_of(opcode)),
                        Op::Add(Add::Register(Register::PC, Register::NE)),
                    ],
                ],
            ),
        )
    } else if opcode == 0x76 {
        Some((1, (4, 0), false, seq![seq![Op::Halt]]))
    } else if 0x40 <= opcode < 0x80 {
        let dest = ld_dest_of(opcode);
        let src = src_of(low);
        if src == Register::HL {
            Some((1, (8, 0), false, seq![seq![Op::Assert(src), Op::Load(Load::Register(dest, Register::Memory))]]))
        } else if dest == Register::HL {
            Some((1, (8, 0), false, seq![seq![Op::Assert(dest), Op::Load(Load::Memory(src))]]))
        } else {
            Some((1, (4, 0), true, seq![seq![Op::Load(Load::Register(dest, src))]]))
        }
    } else if 0x80 <= opcode < 0x88 || opcode == 0xC6 {
        let src = if opcode == 0xC6 { Register::N } else { src_of(low) };
        Some(alu_shape(src, Op::Add(Add::Register(Register::A, src)), Op::Add(Add::Register(Register::A, Register::Memory))))
    } else if 0x88 <= opcode < 0x90 || opcode == 0xCE {
        let src = if opcode == 0xCE { Register::N } else { src_of(low) };
        Some(alu_shape(src, Op::ADC(ADC::Register(Register::A, src)), Op::ADC(ADC::Register(Register::A, Register::Memory))))
    } else if 0x90 <= opcode < 0x98 || opcode == 0xD6 {
        let src = if opcode == 0xD6 { Register::N } else { src_of(low) };
        Some(alu_shape(src, Op::Sub(Sub::Register(Register::A, src)), Op::Sub(Sub::Register(Register::A, Register::Memory))))
    } else if 0x98 <= opcode < 0xA0 {
        let src = src_of(low);
        Some(alu_shape(src, Op::SBC(SBC::Register(Register::A, src)), Op::SBC(SBC::Register(Register::A, Register::Memory))))
    } else if 0xA0 <= opcode < 0xA8 || opcode == 0xE6 {
        let src = if opcode == 0xE6 { Register::N } else { src_of(low) };
        Some(alu_shape(src, Op::AND(src), Op::AND(Register::Memory)))
    } else if 0xA8 <= opcode < 0xB0 {
        let src = src_of(low);
        Some(alu_shape(src, Op::XOR(src), Op::XOR(Register::Memory)))
    } else if 0xB0 <= opcode < 0xB8 || opcode == 0xF6 {
        let src = if opcode == 0xF6 { Register::N } else { src_of(low) };
        Some(alu_shape(src, Op::OR(src), Op::OR(Register::Memory)))
    } else if 0xB8 <= opcode < 0xC0 {
        let src = src_of(low);
        Some(alu_shape(src, Op::CP(src), Op::CP(Register::Memory)))
    } else if opcode >= 0xC0 && low == 5 {
        let (h, l) = stack_pair_of(opcode);
        Some(
            (
                1,
                (4, 0),
                false,
                seq![
                    seq![Op::NOP],
                    seq![Op::AssertPreDec(Register::SP), Op::Load(Load::Memory(h))],
                    seq![Op::AssertPreDec(Register::SP), Op::Load(Load::Memory(l))],
                ],
            ),
        )
    } else if opcode >= 0xC0 && low == 1 {
        let (h, l) = stack_pair_of(opcode);
        Some(
            (
                1,
                (4, 0),
                false,
                seq![
                    seq![Op::AssertPreInc(Register::SP), Op::Load(Load::Memory(h))],
                    seq![Op::AssertPreInc(Register::SP), Op::Load(Load::Memory(l))],
                ],
            ),
        )
    } else if opcode >= 0xC0 && (low == 7 || low == 0xF) {
        Some(
            (
                1,
                (4, 0),
                false,
                seq![
                    seq![Op::SetN((opcode - 0xC7) as u8)],
                    seq![Op::AssertPreDec(Register::SP), Op::Load(Load::MemoryHi(Register::PC))],
                    seq![
                        Op::AssertPreDec(Register::SP),
                        Op::Load(Load::MemoryLo(Register::PC)),
                        Op::Load(Load::Register(Register::PC, Register::N)),
                    ],
                ],
            ),
        )
    } else {
        None
    }
}

impl Instruction {
    /// Decodes an opcode into its steps.
    pub fn decode(opcode: u8) -> (i: Instruction)
        requires
            decoded(opcode) is Some,
        ensures
            decodes_to(i, opcode),
            i@ == decoded_view(opcode),
    {
        let i = Self::decode_table(opcode);
        proof {
            assert(i@.steps_done =~= decoded_view(opcode).steps_done);
        }
        i
    }

    fn decode_table(opcode: u8) -> (i: Instruction)
        requires
            decoded(opcode) is Some,
        ensures
            decodes_to(i, opcode),
    {
        match opcode {
            0x00 => Instruction::nop(),
            0x10 => Instruction::stop(),
            0x01 | 0x11 | 0x21 | 0x31 => Instruction::ld_rr_nn(opcode),
            0x02 | 0x12 | 0x22 | 0x32 => Instruction::ld_rrm_nn(opcode),
            0x03 | 0x13 | 0x23 | 0x33 => Instruction::inc_rr(opcode),
            0x04 | 0x14 | 0x24 | 0x34 | 0x0C | 0x1C | 0x2C | 0x3C => Instruction::inc_r(opcode),
            0x05 | 0x15 | 0x25 | 0x35 | 0x0D | 0x1D | 0x2D | 0x3D => Instruction::dec_r(opcode),
            0x06 | 0x16 | 0x26 | 0x36 | 0x0E | 0x1E | 0x2E | 0x3E => Instruction::ld_r_n(opcode),
            0x09 | 0x19 | 0x29 | 0x39 => Instruction::add_hl_rr(opcode),
            0x07 => Instruction::rlca(),
            0x17 => Instruction::rla(),
            0x27 => Instruction::daa(),
            0x37 => Instruction::scf(),
            0x0F => Instruction::rrca(),
            0x1F => Instruction::rra(),
            0x2F => Instruction::cpl(),
            0x3F => Instruction::ccf(),
            0x08 => Instruction::ld_nnm_sp(),
            0x18 => Instruction::jr(),
            0x20 | 0x30 | 0x28 | 0x38 => Instruction::jr_cc(opcode),
            0x40..=0x75 | 0x77..=0x7F => Instruction::ld_r_r(opcode),
            0x76 => Instruction::halt(),
            0x80..=0x87 | 0xC6 => Instruction::add_r_r(opcode),
            0x88..=0x8F | 0xCE => Instruction::adc_a_r(opcode),
            0x90..=0x97 | 0xD6 => Instruction::sub_a_r(opcode),
            0x98..=0x9F => Instruction::sbc_a_r(opcode),
            0xA0..=0xA7 | 0xE6 => Instruction::and(opcode),
            0xA8..=0xAF => Instruction::xor(opcode),
            0xB0..=0xB7 | 0xF6 => Instruction::or(opcode),
            0xB8..=0xBF => Instruction::cp(opcode),
            0xC5 | 0xD5 | 0xE5 | 0xF5 => Instruction::push(opcode),
            0xC1 | 0xD1 | 0xE1 | 0xF1 => Instruction::pop(opcode),
            _ => Instruction::rst(opcode),
        }
    }

    pub fn nop() -> (i: Instruction)
        ensures
            fresh(i, 0, 1, (4, 0), false, seq![Seq::empty()]),
    {
        let opss = vec![vec![]];
        assert(op_lists(opss@) =~~= seq![Seq::empty()]);
        build(1, (4, 0), false, opss)
    }

    pub fn stop() -> (i: Instruction)
        ensures
            fresh(i, 0, 1, (4, 0), false, seq![seq![Op::Stop]]),
    {
        let opss = vec![vec![Op::Stop]];
        assert(op_lists(opss@) =~~= seq![seq![Op::Stop]]);
        build(1, (4, 0), false, opss)
    }

    pub fn halt() -> (i: Instruction)
        ensures
            fresh(i, 0, 1, (4, 0), false, seq![seq![Op::Halt]]),
    {
        let opss = vec![vec![Op::Halt]];
        assert(op_lists(opss@) =~~= seq![seq![Op::Halt]]);
        build(1, (4, 0), false, opss)
    }

    pub fn push(opcode: u8) -> (i: Instruction)
        requires
            opcode == 0xC5 || opcode == 0xD5 || opcode == 0xE5 || opcode == 0xF5,
        ensures
            fresh(
                i,
                0,
                1,
                (4, 0),
                false,
                seq![
                    seq![Op::NOP],
                    seq![Op::AssertPreDec(Register::SP), Op::Load(Load::Memory(stack_pair_of(opcode).0))],
                    seq![Op::AssertPreDec(Register::SP), Op::Load(Load::Memory(stack_pair_of(opcode).1))],
                ],
            ),
    {
        let (hi, lo) = match opcode {
            0xC5 => (Register::B, Register::C),
            0xD5 => (Register::D, Register::E),
            0xE5 => (Register::H, Register::L),
            _ => (Register::A, Register::F),
        };
        let opss = vec![
            vec![Op::NOP],
            vec![Op::AssertPreDec(Register::SP), Op::Load(Load::Memory(hi))],
            vec![Op::AssertPreDec(Register::SP), Op::Load(Load::Memory(lo))],
        ];
        assert(op_lists(opss@) =~~= seq![
            seq![Op::NOP],
            seq![Op::AssertPreDec(Register::SP), Op::Load(Load::Memory(hi))],
            seq![Op::AssertPreDec(Register::SP), Op::Load(Load::Memory(lo))],
        ]);
        build(1, (4, 0), false, opss)
    }

    pub fn pop(opcode: u8) -> (i: Instruction)
        requires
            opcode == 0xC1 || opcode == 0xD1 || opcode == 0xE1 || opcode == 0xF1,
        ensures
            fresh(
                i,
                0,
                1,
                (4, 0),
                false,
                seq![
                    seq![Op::AssertPreInc(Register::SP), Op::Load(Load::Memory(stack_pair_of(opcode).0))],
                    seq![Op::AssertPreInc(Register::SP), Op::Load(Load::Memory(stack_pair_of(opcode).1))],
                ],
            ),
    {
        let (hi, lo) = match opcode {
            0xC1 => (Register::B, Register::C),
            0xD1 => (Register::D, Register::E),
            0xE1 => (Register::H, Register::L),
            _ => (Register::A, Register::F),
        };
        let opss = vec![
            vec![Op::AssertPreInc(Register::SP), Op::Load(Load::Memory(hi))],
            vec![Op::AssertPreInc(Register::SP), Op::Load(Load::Memory(lo))],
        ];
        assert(op_lists(opss@) =~~= seq![
            seq![Op::AssertPreInc(Register::SP), Op::Load(Load::Memory(hi))],
            seq![Op::AssertPreInc(Register::SP), Op::Load(Load::Memory(lo))],
        ]);
        build(1, (4, 0), false, opss)
    }

    pub fn rst(opcode: u8) -> (i: Instruction)
        requires
            opcode >= 0xC0,
            opcode % 16 == 7 || opcode % 16 == 0xF,
        ensures
            fresh(
                i,
                0,
                1,
                (4, 0),
                false,
                seq![
                    seq![Op::SetN((opcode - 0xC7) as u8)],
                    seq![Op::AssertPreDec(Register::SP), Op::Load(Load::MemoryHi(Register::PC))],
                    seq![
                        Op::AssertPreDec(Register::SP),
                        Op::Load(Load::MemoryLo(Register::PC)),
                        Op::Load(Load::Register(Register::PC, Register::N)),
                    ],
                ],
            ),
    {
        let rst_addr: u8 = match opcode {
            0xC7 => 0x00,
            0xD7 => 0x10,
            0xE7 => 0x20,
            0xF7 => 0x30,
            0xCF => 0x08,
            0xDF => 0x18,
            0xEF => 0x28,
            _ => 0x38,
        };
        let opss = vec![
            vec![Op::SetN(rst_addr)],
            vec![Op::AssertPreDec(Register::SP), Op::Load(Load::MemoryHi(Register::PC))],
            vec![
                Op::AssertPreDec(Register::SP),
                Op::Load(Load::MemoryLo(Register::PC)),
                Op::Load(Load::Register(Register::PC, Register::N)),
            ],
        ];
        assert(op_lists(opss@) =~~= seq![
            seq![Op::SetN(rst_addr)],
            seq![Op::AssertPreDec(Register::SP), Op::Load(Load::MemoryHi(Register::PC))],
            seq![
                Op::AssertPreDec(Register::SP),
                Op::Load(Load::MemoryLo(Register::PC)),
                Op::Load(Load::Register(Register::PC, Register::N)),
            ],
        ]);
        build(1, (4, 0), false, opss)
    }

    fn ld_rr_nn(opcode: u8) -> (i: Instruction)
        requires
            opcode == 0x01 || opcode == 0x11 || opcode == 0x21 || opcode == 0x31,
        ensures
            fresh(
                i,
                0,
                3,
                (12, 0),
                false,
                seq![
                    seq![Op::Fetch(Fetch::NnLo)],
                    seq![Op::Fetch(Fetch::NnHi), Op::Load(Load::Register(pair_of(opcode), Register::NN))],
                ],
            ),
    {
        let r = match opcode {
            0x01 => Register::BC,
            0x11 => Register::DE,
            0x21 => Register::HL,
            _ => Register::SP,
        };
        let opss = vec![
            vec![Op::Fetch(Fetch::NnLo)],
            vec![Op::Fetch(Fetch::NnHi), Op::Load(Load::Register(r, Register::NN))],
        ];
        assert(op_lists(opss@) =~~= seq![
            seq![Op::Fetch(Fetch::NnLo)],
            seq![Op::Fetch(Fetch::NnHi), Op::Load(Load::Register(r, Register::NN))],
        ]);
        build(3, (12, 0), false, opss)
    }

    fn ld_r_r(opcode: u8) -> (i: Instruction)
        requires
            0x40 <= opcode < 0x80,
            opcode != 0x76,
        ensures
            decodes_to(i, opcode),
    {
        let dest = match opcode {
            0x40..=0x47 => Register::B,
            0x48..=0x4F => Register::C,
            0x50..=0x57 => Register::D,
            0x58..=0x5F => Register::E,
            0x60..=0x67 => Register::H,
            0x68..=0x6F => Register::L,
            0x70..=0x77 => Register::HL,
            _ => Register::A,
        };
        let src = src_from(opcode);
        proof {
            bit::lemma_byte_fields(opcode);
        }
        if src == Register::HL {
            let opss = vec![vec![Op::Assert(src), Op::Load(Load::Register(dest, Register::Memory))]];
            assert(op_lists(opss@) =~~= seq![seq![Op::Assert(src), Op::Load(Load::Register(dest, Register::Memory))]]);
            build(1, (8, 0), false, opss)
        } else if dest == Register::HL {
            let opss = vec![vec![Op::Assert(dest), Op::Load(Load::Memory(src))]];
            assert(op_lists(opss@) =~~= seq![seq![Op::Assert(dest), Op::Load(Load::Memory(src))]]);
            build(1, (8, 0), false, opss)
        } else {
            let opss = vec![vec![Op::Load(Load::Register(dest, src))]];
            assert(op_lists(opss@) =~~= seq![seq![Op::Load(Load::Register(dest, src))]]);
            build(1, (4, 0), true, opss)
        }
    }

    fn ld_rrm_nn(opcode: u8) -> (i: Instruction)
        requires
            opcode == 0x02 || opcode == 0x12 || opcode == 0x22 || opcode == 0x32,
        ensures
            decodes_to(i, opcode),
    {
        let r = match opcode {
            0x02 => Register::BC,
            0x12 => Register::DE,
            0x22 => Register::HLI,
            _ => Register::HLD,
        };
        let opss = vec![vec![Op::Assert(r), Op::Load(Load::Memory(Register::A))]];
        assert(op_lists(opss@) =~~= seq![seq![Op::Assert(r), Op::Load(Load::Memory(Register::A))]]);
        build(1, (8, 0), false, opss)
    }

    fn ld_nnm_sp() -> (i: Instruction)
        ensures
            decodes_to(i, 0x08),
    {
        let r = Register::SP;
        let opss = vec![
            vec![Op::Fetch(Fetch::NnLo)],
            vec![Op::Fetch(Fetch::NnHi)],
            vec![Op::Assert(Register::NN), Op::Load(Load::MemoryLo(r))],
            vec![Op::AssertInc(Register::NN), Op::Load(Load::MemoryHi(r))],
        ];
        assert(op_lists(opss@) =~~= seq![
            seq![Op::Fetch(Fetch::NnLo)],
            seq![Op::Fetch(Fetch::NnHi)],
            seq![Op::Assert(Register::NN), Op::Load(Load::MemoryLo(r))],
            seq![Op::AssertInc(Register::NN), Op::Load(Load::MemoryHi(r))],
        ]);
        build(3, (20, 0), false, opss)
    }

    fn inc_rr(opcode: u8) -> (i: Instruction)
        requires
            opcode == 0x03 || opcode == 0x13 || opcode == 0x23 || opcode == 0x33,
        ensures
            decodes_to(i, opcode),
    {
        let r = match opcode {
            0x03 => Register::BC,
            0x13 => Register::DE,
            0x23 => Register::HL,
            _ => Register::SP,
        };
        let opss = vec![vec![Op::Inc(Inc::Register(r))]];
        assert(op_lists(opss@) =~~= seq![seq![Op::Inc(Inc::Register(r))]]);
        build(1, (8, 0), false, opss)
    }

    fn inc_r(opcode: u8) -> (i: Instruction)
        requires
            opcode < 0x40,
            opcode % 16 == 4 || opcode % 16 == 0xC,
        ensures
            decodes_to(i, opcode),
    {
        let r = match opcode {
            0x04 => Register::B,
            0x14 => Register::D,
            0x24 => Register::H,
            0x34 => Register::HL,
            0x0C => Register::C,
            0x1C => Register::E,
            0x2C => Register::L,
            _ => Register::A,
        };
        if r == Register::HL {
            let opss = vec![vec![Op::Assert(Register::HL)], vec![Op::Inc(Inc::Memory)]];
            assert(op_lists(opss@) =~~= seq![seq![Op::Assert(Register::HL)], seq![Op::Inc(Inc::Memory)]]);
            build(1, (12, 0), false, opss)
        } else {
            let opss = vec![vec![Op::Inc(Inc::Register(r))]];
            assert(op_lists(opss@) =~~= seq![seq![Op::Inc(Inc::Register(r))]]);
            build(1, (4, 0), true, opss)
        }
    }

    fn dec_r(opcode: u8) -> (i: Instruction)
        requires
            opcode < 0x40,
            opcode % 16 == 5 || opcode % 16 == 0xD,
        ensures
            decodes_to(i, opcode),
    {
        let r = match opcode {
            0x05 => Register::B,
            0x15 => Register::D,
            0x25 => Register::H,
            0x35 => Register::HL,
            0x0D => Register::C,
            0x1D => Register::E,
            0x2D => Register::L,
            _ => Register::A,
        };
        if r == Register::HL {
            let opss = vec![vec![Op::Assert(Register::HL)], vec![Op::Dec(Dec::Memory)]];
            assert(op_lists(opss@) =~~= seq![seq![Op::Assert(Register::HL)], seq![Op::Dec(Dec::Memory)]]);
            build(1, (12, 0), false, opss)
        } else {
            let opss = vec![vec![Op::Dec(Dec::Register(r))]];
            assert(op_lists(opss@) =~~= seq![seq![Op::Dec(Dec::Register(r))]]);
            build(1, (4, 0), true, opss)
        }
    }

    fn ld_r_n(opcode: u8) -> (i: Instruction)
        requires
            opcode < 0x40,
            opcode % 16 == 6 || opcode % 16 == 0xE,
        ensures
            decodes_to(i, opcode),
    {
        let r = match opcode {
            0x06 => Register::B,
            0x16 => Register::D,
            0x26 => Register::H,
            0x36 => Register::HL,
            0x0E => Register::C,
            0x1E => Register::E,
            0x2E => Register::L,
            _ => Register::A,
        };
        if r == Register::HL {
            let opss = vec![
                vec![Op::Fetch(Fetch::N)],
                vec![Op::Assert(Register::HL), Op::Load(Load::Memory(Register::N))],
            ];
            assert(op_lists(opss@) =~~= seq![
                seq![Op::Fetch(Fetch::N)],
                seq![Op::Assert(Register::HL), Op::Load(Load::Memory(Register::N))],
            ]);
            build(2, (12, 0), false, opss)
        } else {
            let opss = vec![vec![Op::Fetch(Fetch::N), Op::Load(Load::Register(r, Register::N))]];
            assert(op_lists(opss@) =~~= seq![seq![Op::Fetch(Fetch::N), Op::Load(Load::Register(r, Register::N))]]);
            build(2, (8, 0), false, opss)
        }
    }

    fn rlca() -> (i: Instruction)
        ensures
            decodes_to(i, 0x07),
    {
        let opss = vec![vec![Op::RLC(Register::A)]];
        assert(op_lists(opss@) =~~= seq![seq![Op::RLC(Register::A)]]);
        build(1, (4, 0), true, opss)
    }

    fn rla() -> (i: Instruction)
        ensures
            decodes_to(i, 0x17),
    {
        let opss = vec![vec![Op::RL(Register::A)]];
        assert(op_lists(opss@) =~~= seq![seq![Op::RL(Register::A)]]);
        build(1, (4, 0), true, opss)
    }

    fn rrca() -> (i: Instruction)
        ensures
            decodes_to(i, 0x0F),
    {
        let opss = vec![vec![Op::RRC(Register::A)]];
        assert(op_lists(opss@) =~~= seq![seq![Op::RRC(Register::A)]]);
        build(1, (4, 0), true, opss)
    }

    fn rra() -> (i: Instruction)
        ensures
            decodes_to(i, 0x1F),
    {
        let opss = vec![vec![Op::RR(Register::A)]];
        assert(op_lists(opss@) =~~= seq![seq![Op::RR(Register::A)]]);
        build(1, (4, 0), true, opss)
    }

    fn daa() -> (i: Instruction)
        ensures
            decodes_to(i, 0x27),
    {
        let opss = vec![vec![Op::DAA]];
        assert(op_lists(opss@) =~~= seq![seq![Op::DAA]]);
        build(1, (4, 0), true, opss)
    }

    fn scf() -> (i: Instruction)
        ensures
            decodes_to(i, 0x37),
    {
        let opss = vec![vec![Op::SCF]];
        assert(op_lists(opss@) =~~= seq![seq![Op::SCF]]);
        build(1, (4, 0), true, opss)
    }

    fn cpl() -> (i: Instruction)
        ensures
            decodes_to(i, 0x2F),
    {
        let opss = vec![vec![Op::CPL]];
        assert(op_lists(opss@) =~~= seq![seq![Op::CPL]]);
        build(1, (4, 0), true, opss)
    }

    fn ccf() -> (i: Instruction)
        ensures
            decodes_to(i, 0x3F),
    {
        let opss = vec![vec![Op::CCF]];
        assert(op_lists(opss@) =~~= seq![seq![Op::CCF]]);
        build(1, (4, 0), true, opss)
    }

    fn jr() -> (i: Instruction)
        ensures
            decodes_to(i, 0x18),
    {
        let opss = vec![
            vec![Op::Fetch(Fetch::E)],
            vec![Op::Add(Add::Register(Register::PC, Register::NE))],
        ];
        assert(op_lists(opss@) =~~= seq![
            seq![Op::Fetch(Fetch::E)],
            seq![Op::Add(Add::Register(Register::PC, Register::NE))],
        ]);
        build(2, (12, 0), false, opss)
    }

    fn jr_cc(opcode: u8) -> (i: Instruction)
        requires
            opcode == 0x20 || opcode == 0x28 || opcode == 0x30 || opcode == 0x38,
        ensures
            decodes_to(i, opcode),
    {
        let cond = match opcode {
            0x20 => Cond::NZ,
            0x30 => Cond::NC,
            0x28 => Cond::Z,
            _ => Cond::C,
        };
        let opss = vec![
            vec![Op::Fetch(Fetch::E)],
            vec![Op::CheckCond(cond), Op::Add(Add::Register(Register::PC, Register::NE))],
        ];
        assert(op_lists(opss@) =~~= seq![
            seq![Op::Fetch(Fetch::E)],
            seq![Op::CheckCond(cond), Op::Add(Add::Register(Register::PC, Register::NE))],
        ]);
        build(2, (8, 12), false, opss)
    }

    fn add_hl_rr(opcode: u8) -> (i: Instruction)
        requires
            opcode == 0x09 || opcode == 0x19 || opcode == 0x29 || opcode == 0x39,
        ensures
            decodes_to(i, opcode),
    {
        let r = match opcode {
            0x09 => Register::BC,
            0x19 => Register::DE,
            0x29 => Register::HL,
            _ => Register::SP,
        };
        let opss = vec![vec![Op::Add(Add::Register(Register::HL, r))]];
        assert(op_lists(opss@) =~~= seq![seq![Op::Add(Add::Register(Register::HL, r))]]);
        build(1, (8, 0), false, opss)
    }

    fn adc_a_r(opcode: u8) -> (i: Instruction)
        requires
            0x88 <= opcode < 0x90 || opcode == 0xCE,
        ensures
            decodes_to(i, opcode),
    {
        let src = if opcode == 0xCE {
            Register::N
        } else {
            src_from(opcode)
        };
        proof {
            bit::lemma_byte_fields(opcode);
        }
        if src == Register::HL {
            let opss = vec![vec![Op::Assert(src), Op::ADC(ADC::Register(Register::A, Register::Memory))]];
            assert(op_lists(opss@) =~~= seq![seq![Op::Assert(src), Op::ADC(ADC::Register(Register::A, Register::Memory))]]);
            build(1, (8, 0), false, opss)
        } else if src == Register::N {
            let opss = vec![vec![Op::Fetch(Fetch::N), Op::ADC(ADC::Register(Register::A, src))]];
            assert(op_lists(opss@) =~~= seq![seq![Op::Fetch(Fetch::N), Op::ADC(ADC::Register(Register::A, src))]]);
            build(2, (8, 0), false, opss)
        } else {
            let opss = vec![vec![Op::ADC(ADC::Register(Register::A, src))]];
            assert(op_lists(opss@) =~~= seq![seq![Op::ADC(ADC::Register(Register::A, src))]]);
            build(1, (4, 0), true, opss)
        }
    }

    fn add_r_r(opcode: u8) -> (i: Instruction)
        requires
            0x80 <= opcode < 0x88 || opcode == 0xC6,
        ensures
            decodes_to(i, opcode),
    {
        let src = if opcode == 0xC6 {
            Register::N
        } else {
            src_from(opcode)
        };
        proof {
            bit::lemma_byte_fields(opcode);
        }
        if src == Register::HL {
            let opss = vec![vec![Op::Assert(src), Op::Add(Add::Register(Register::A, Register::Memory))]];
            assert(op_lists(opss@) =~~= seq![seq![Op::Assert(src), Op::Add(Add::Register(Register::A, Register::Memory))]]);
            build(1, (8, 0), false, opss)
        } else if src == Register::N {
            let opss = vec![vec![Op::Fetch(Fetch::N), Op::Add(Add::Register(Register::A, src))]];
            assert(op_lists(opss@) =~~= seq![seq![Op::Fetch(Fetch::N), Op::Add(Add::Register(Register::A, src))]]);
            build(2, (8, 0), false, opss)
        } else {
            let opss = vec![vec![Op::Add(Add::Register(Register::A, src))]];
            assert(op_lists(opss@) =~~= seq![seq![Op::Add(Add::Register(Register::A, src))]]);
            build(1, (4, 0), true, opss)
        }
    }

    fn sub_a_r(opcode: u8) -> (i: Instruction)
        requires
            0x90 <= opcode < 0x98 || opcode == 0xD6,
        ensures
            decodes_to(i, opcode),
    {
        let src = if opcode == 0xD6 {
            Register::N
        } else {
            src_from(opcode)
        };
        proof {
            bit::lemma_byte_fields(opcode);
        }
        if src == Register::HL {
            let opss = vec![vec![Op::Assert(src), Op::Sub(Sub::Register(Register::A, Register::Memory))]];
            assert(op_lists(opss@) =~~= seq![seq![Op::Assert(src), Op::Sub(Sub::Register(Register::A, Register::Memory))]]);
            build(1, (8, 0), false, opss)
        } else if src == Register::N {
            let opss = vec![vec![Op::Fetch(Fetch::N), Op::Sub(Sub::Register(Register::A, src))]];
            assert(op_lists(opss@) =~~= seq![seq![Op::Fetch(Fetch::N), Op::Sub(Sub::Register(Register::A, src))]]);
            build(2, (8, 0), false, opss)
        } else {
            let opss = vec![vec![Op::Sub(Sub::Register(Register::A, src))]];
            assert(op_lists(opss@) =~~= seq![seq![Op::Sub(Sub::Register(Register::A, src))]]);
            build(1, (4, 0), true, opss)
        }
    }

    fn sbc_a_r(opcode: u8) -> (i: Instruction)
        requires
            0x98 <= opcode < 0xA0,
        ensures
            decodes_to(i, opcode),
    {
        let src = src_from(opcode);
        proof {
            bit::lemma_byte_fields(opcode);
        }
        if src == Register::HL {
            let opss = vec![vec![Op::Assert(src), Op::SBC(SBC::Register(Register::A, Register::Memory))]];
            assert(op_lists(opss@) =~~= seq![seq![Op::Assert(src), Op::SBC(SBC::Register(Register::A, Register::Memory))]]);
            build(1, (8, 0), false, opss)
        } else {
            let opss = vec![vec![Op::SBC(SBC::Register(Register::A, src))]];
            assert(op_lists(opss@) =~~= seq![seq![Op::SBC(SBC::Register(Register::A, src))]]);
            build(1, (4, 0), true, opss)
        }
    }

    fn and(opcode: u8) -> (i: Instruction)
        requires
            0xA0 <= opcode < 0xA8 || opcode == 0xE6,
        ensures
            decodes_to(i, opcode),
    {
        let src = if opcode == 0xE6 {
            Register::N
        } else {
            src_from(opcode)
        };
        proof {
            bit::lemma_byte_fields(opcode);
        }
        if src == Register::HL {
            let opss = vec![vec![Op::Assert(src), Op::AND(Register::Memory)]];
            assert(op_lists(opss@) =~~= seq![seq![Op::Assert(src), Op::AND(Register::Memory)]]);
            build(1, (8, 0), false, opss)
        } else if src == Register::N {
            let opss = vec![vec![Op::Fetch(Fetch::N), Op::AND(src)]];
            assert(op_lists(opss@) =~~= seq![seq![Op::Fetch(Fetch::N), Op::AND(src)]]);
            build(2, (8, 0), false, opss)
        } else {
            let opss = vec![vec![Op::AND(src)]];
            assert(op_lists(opss@) =~~= seq![seq![Op::AND(src)]]);
            build(1, (4, 0), true, opss)
        }
    }

    fn xor(opcode: u8) -> (i: Instruction)
        requires
            0xA8 <= opcode < 0xB0,
        ensures
            decodes_to(i, opcode),
    {
        let src = src_from(opcode);
        proof {
            bit::lemma_byte_fields(opcode);
        }
        if src == Register::HL {
            let opss = vec![vec![Op::Assert(src), Op::XOR(Register::Memory)]];
            assert(op_lists(opss@) =~~= seq![seq![Op::Assert(src), Op::XOR(Register::Memory)]]);
            build(1, (8, 0), false, opss)
        } else {
            let opss = vec![vec![Op::XOR(src)]];
            assert(op_lists(opss@) =~~= seq![seq![Op::XOR(src)]]);
            build(1, (4, 0), true, opss)
        }
    }

    fn or(opcode: u8) -> (i: Instruction)
        requires
            0xB0 <= opcode < 0xB8 || opcode == 0xF6,
        ensures
            decodes_to(i, opcode),
    {
        let src = if opcode == 0xF6 {
            Register::N
        } else {
            src_from(opcode)
        };
        proof {
            bit::lemma_byte_fields(opcode);
        }
        if src == Register::HL {
            let opss = vec![vec![Op::Assert(src), Op::OR(Register::Memory)]];
            assert(op_lists(opss@) =~~= seq![seq![Op::Assert(src), Op::OR(Register::Memory)]]);
            build(1, (8, 0), false, opss)
        } else if src == Register::N {
            let opss = vec![vec![Op::Fetch(Fetch::N), Op::OR(src)]];
            assert(op_lists(opss@) =~~= seq![seq![Op::Fetch(Fetch::N), Op::OR(src)]]);
            build(2, (8, 0), false, opss)
        } else {
            let opss = vec![vec![Op::OR(src)]];
            assert(op_lists(opss@) =~~= seq![seq![Op::OR(src)]]);
            build(1, (4, 0), true, opss)
        }
    }

    fn cp(opcode: u8) -> (i: Instruction)
        requires
            0xB8 <= opcode < 0xC0,
        ensures
            decodes_to(i, opcode),
    {
        let src = src_from(opcode);
        proof {
            bit::lemma_byte_fields(opcode);
        }
        if src == Register::HL {
            let opss = vec![vec![Op::Assert(src), Op::CP(Register::Memory)]];
            assert(op_lists(opss@) =~~= seq![seq![Op::Assert(src), Op::CP(Register::Memory)]]);
            build(1, (8, 0), false, opss)
        } else {
            let opss = vec![vec![Op::CP(src)]];
            assert(op_lists(opss@) =~~= seq![seq![Op::CP(src)]]);
            build(1, (4, 0), true, opss)
        }
    }

}

/// `i` is what `Instruction::decode` builds for `opcode`.
pub open spec fn decodes_to(i: Instruction, opcode: u8) -> bool {
    match decoded(opcode) {
        Some(d) => fresh(i, 0, d.0, d.1, d.2, d.3),
        None => false,
    }
}


/// The shape that the table decoders give an opcode:
/// (opcode field, length, cycles, steps), or the error they report.
pub type Shape = (u8, u8, (u8, u8), Seq<Seq<Op>>);

/// `r` is the decoder result that `d` describes.
pub open spec fn decodes_as(r: Result<Instruction, Error>, d: Result<Shape, Error>) -> bool {
    match (r, d) {
        (Ok(i), Ok(s)) => fresh(i, s.0, s.1, s.2, false, s.3),
        (Err(e), Err(f)) => e == f,
        _ => false,
    }
}

/// Block 0 (opcodes 0x00 to 0x3F) of the table decoder.
pub open spec fn block_0_shape(opcode: u8) -> Result<Shape, Error> {
    let low4 = opcode % 16;
    let low3 = opcode % 8;
    if opcode == 0x00 {
        Ok((0x00, 1, (4, 0), seq![Seq::empty()]))
    } else if opcode == 0x10 {
        Ok((0x10, 1, (4, 0), Seq::empty()))
    } else if low4 == 1 {
        Ok((opcode, 3, (12, 0), Seq::empty()))
    } else if low4 == 2 || low4 == 0xA {
        Ok((opcode, 1, (8, 0), Seq::empty()))
    } else if opcode == 0x08 {
        Ok((opcode, 3, (20, 0), Seq::empty()))
    } else if low4 == 0xB || low4 == 9 {
        Ok((opcode, 1, (8, 0), Seq::empty()))
    } else if low3 == 6 {
        Ok((opcode, 2, if opcode == 0x36 { (12, 0) } else { (4, 0) }, Seq::empty()))
    } else if low3 == 0 {
        Ok((opcode, 2, if opcode >= 0x20 { (8, 12) } else { (12, 0) }, Seq::empty()))
    } else if low3 == 7 {
        Ok((opcode, 1, (4, 0), Seq::empty()))
    } else {
        Err(Error::Unimplemented(opcode))
    }
}

/// How many bytes of immediate operand follow an opcode below 0x40: a 16-bit
/// one for `ld rr, n16` and `ld [n16], sp`, an 8-bit one for `ld r, n8` and the
/// relative jumps, none otherwise.
pub open spec fn immediate_bytes(opcode: u8) -> int {
    if opcode % 16 == 1 || opcode == 0x08 {
        2
    } else if opcode % 8 == 6 || opcode == 0x18 || (opcode >= 0x20 && opcode % 8 == 0) {
        1
    } else {
        0
    }
}

/// An instruction below 0x40 is one opcode byte and its immediate operand: both
/// decoders give it length 1 + `immediate_bytes`, and every `ld r, n8` decodes.
pub proof fn lemma_block_0_lengths(opcode: u8, r: Result<Instruction, Error>)
    requires
        opcode < 0x40,
        decodes_as(r, table_shape(opcode)),
    ensures
        r is Ok ==> r->Ok_0.len == 1 + immediate_bytes(opcode),
        opcode % 8 == 6 ==> r is Ok,
        decoded(opcode) is Some ==> decoded(opcode)->Some_0.0 == 1 + immediate_bytes(opcode),
        opcode % 8 == 6 ==> decoded(opcode) is Some,
{
}

/// Block 1 (opcodes 0x40 to 0x7F): `halt` and `ld r, r'`.
pub open spec fn block_1_shape(opcode: u8) -> Result<Shape, Error> {
    if opcode == 0x76 {
        Ok((0x76, 1, (4, 0), Seq::empty()))
    } else if (opcode / 8) % 8 == 6 || opcode % 8 == 6 {
        Ok((0, 1, (8, 0), Seq::empty()))
    } else {
        Ok((0, 1, (4, 0), Seq::empty()))
    }
}

/// Block 2 (opcodes 0x80 to 0xBF): 8-bit arithmetic on a register.
pub open spec fn block_2_shape(opcode: u8) -> Result<Shape, Error> {
    Ok((0, 1, if opcode % 8 == 6 { (8, 0) } else { (4, 0) }, Seq::empty()))
}

/// The opcodes that the machine does not define.
pub open spec fn is_invalid_opcode(opcode: u8) -> bool {
    opcode == 0xD3 || opcode == 0xDB || opcode == 0xDD || opcode == 0xE3 || opcode == 0xE4
        || opcode == 0xEB || opcode == 0xEC || opcode == 0xED || opcode == 0xF4 || opcode == 0xFC
        || opcode == 0xFD
}

/// Block 3 (opcodes 0xC0 to 0xFF).
pub open spec fn block_3_shape(opcode: u8) -> Result<Shape, Error> {
    let low3 = opcode % 8;
    let low4 = opcode % 16;
    let e: Seq<Seq<Op>> = Seq::empty();
    if is_invalid_opcode(opcode) {
        Err(Error::InvalidOpCode(opcode))
    } else if opcode == 0xCB {
        Ok((0, 1, (4, 0), e))
    } else if low3 == 6 {
        Ok((0, 2, (8, 0), e))
    } else if opcode == 0xE2 || opcode == 0xF2 || opcode == 0xF9 {
        Ok((0, 1, (8, 0), e))
    } else if opcode == 0xE0 || opcode == 0xF0 || opcode == 0xF8 {
        Ok((0, 2, (12, 0), e))
    } else if opcode == 0xEA || opcode == 0xFA || opcode == 0xC3 || opcode == 0xE9 {
        Ok((0, 3, (16, 0), e))
    } else if opcode == 0xE8 {
        Ok((0, 2, (16, 0), e))
    } else if opcode == 0xF3 || opcode == 0xFB {
        Ok((0, 1, (4, 0), e))
    } else if opcode == 0xC9 || opcode == 0xD9 {
        Ok((0, 1, (16, 0), e))
    } else if opcode == 0xCD {
        Ok((0, 3, (24, 0), e))
    } else if low3 == 0 {
        Ok((0, 1, (8, 20), e))
    } else if low3 == 2 {
        Ok((0, 3, (12, 16), e))
    } else if low3 == 4 {
        Ok((0, 3, (12, 24), e))
    } else if low3 == 7 {
        Ok((0, 1, (16, 0), e))
    } else if low4 == 1 {
        Ok((0, 1, (12, 0), e))
    } else if low4 == 5 {
        Ok((0, 1, (16, 0), e))
    } else {
        Err(Error::Unknown)
    }
}

/// What the table decoder `decode` gives an opcode.
pub open spec fn table_shape(opcode: u8) -> Result<Shape, Error> {
    if opcode < 0x40 {
        block_0_shape(opcode)
    } else if opcode < 0x80 {
        block_1_shape(opcode)
    } else if opcode < 0xC0 {
        block_2_shape(opcode)
    } else {
        block_3_shape(opcode)
    }
}

/// What `decode_prefix` gives the opcode after a 0xCB prefix.
pub open spec fn prefix_shape(opcode: u8) -> Shape {
    (0, 2, if opcode % 8 == 6 { (12, 0) } else { (4, 0) }, Seq::empty())
}

/// Decodes an opcode into its length and cycle counts.
pub fn decode(opcode: u8) -> (r: Result<Instruction, Error>)
    ensures
        decodes_as(r, table_shape(opcode)),
{
    proof {
        bit::lemma_byte_fields(opcode);
    }
    match (opcode >> 6) & 0b11 {
        0b00 => decode_block_0(opcode),
        0b01 => decode_block_1(opcode),
        0b10 => decode_block_2(opcode),
        _ => decode_block_3(opcode),
    }
}

fn with_opcode(opcode: u8) -> (i: Instruction)
    ensures
        fresh(i, opcode, 1, (4, 0), false, Seq::empty()),
{
    let mut i = Instruction::new();
    i.opcode = opcode;
    i
}

fn decode_block_0(opcode: u8) -> (r: Result<Instruction, Error>)
    requires
        opcode < 0x40,
    ensures
        decodes_as(r, block_0_shape(opcode)),
{
    if opcode == 0x00 {
        let mut i = Instruction::nop();
        i.opcode = opcode;
        return Ok(i);
    }
    if opcode == 0b00010000 {
        return Ok(with_opcode(opcode));
    }
    let mut i = with_opcode(opcode);
    proof {
        bit::lemma_byte_fields(opcode);
    }
    let last_four = opcode & 0b1111;
    match last_four {
        0b0001 => {
            let r16 = R16::from_bits((opcode & 0b0011_0000) >> 4);
            if let Err(e) = r16 {
                return Err(e);
            }
            i.cycles = (12, 0);
            i.len = 3;
            return Ok(i);
        },
        0b0010 => {
            let r16 = Mem::r16mem((opcode & 0b0011_0000) >> 4);
            if let Err(e) = r16 {
                return Err(e);
            }
            i.len = 1;
            i.cycles = (8, 0);
            return Ok(i);
        },
        0b1010 => {
            let rm = Mem::r16mem((opcode & 0b0011_0000) >> 4);
            if let Err(e) = rm {
                return Err(e);
            }
            i.len = 1;
            i.cycles = (8, 0);
            return Ok(i);
        },
        0b1000 => {
            let dest = (opcode & 0b0011_0000) >> 4;
            assert(dest == 0 <==> opcode == 0x08);
            if dest == 0b00 {
                i.len = 3;
                i.cycles = (20, 0);
                return Ok(i);
            }
        },
        0b1011 => {
            let r = R16::from_bits((opcode & 0b0011_0000) >> 4);
            if let Err(e) = r {
                return Err(e);
            }
            i.len = 1;
            i.cycles = (8, 0);
            return Ok(i);
        },
        0b1001 => {
            let r = R16::from_bits((opcode & 0b0011_0000) >> 4);
            if let Err(e) = r {
                return Err(e);
            }
            i.len = 1;
            i.cycles = (8, 0);
            return Ok(i);
        },
        _ => {},
    }
    let last_three = opcode & 0b111;
    match last_three {
        0b110 => {
            let r = R8::from_bits((opcode & 0b0011_1000) >> 3);
            match r {
                Err(e) => {
                    return Err(e);
                },
                Ok(r) => {
                    i.len = 2;
                    match r {
                        R8::HL => i.cycles = (12, 0),
                        _ => i.cycles = (4, 0),
                    }
                    return Ok(i);
                },
            }
        },
        0b000 => {
            let bits_43 = (opcode & 0b0001_1000) >> 3;
            if bit::is_set(opcode, 5) {
                let c = Cond::from_bits(bits_43);
                if let Err(e) = c {
                    return Err(e);
                }
                i.len = 2;
                i.cycles = (8, 12);
                return Ok(i);
            } else {
                i.len = 2;
                i.cycles = (12, 0);
                return Ok(i);
            }
        },
        _ => {},
    }
    match opcode {
        0b0000_0111 | 0b0000_1111 | 0b0001_0111 | 0b0001_1111 | 0b0010_0111 | 0b0010_1111
        | 0b0011_0111 | 0b0011_1111 => {
            i.len = 1;
            i.cycles = (4, 0);
            return Ok(i);
        },
        _ => {},
    }
    Err(Error::Unimplemented(opcode))
}

fn decode_block_1(opcode: u8) -> (r: Result<Instruction, Error>)
    requires
        0x40 <= opcode < 0x80,
    ensures
        decodes_as(r, block_1_shape(opcode)),
{
    if opcode == 0b0111_0110 {
        return Ok(with_opcode(opcode));
    }
    proof {
        bit::lemma_byte_fields(opcode);
    }
    let dest = R8::from_bits((opcode & 0b0011_1000) >> 3);
    let src = R8::from_bits(opcode & 0b0000_0111);
    match (dest, src) {
        (Ok(dest), Ok(src)) => {
            let mut i = Instruction::new();
            i.len = 1;
            if dest == R8::HL {
                i.cycles = (8, 0);
            } else if src == R8::HL {
                i.cycles = (8, 0);
            }
            Ok(i)
        },
        (Err(e), _) => Err(e),
        (_, Err(e)) => Err(e),
    }
}

fn decode_block_2(opcode: u8) -> (r: Result<Instruction, Error>)
    requires
        0x80 <= opcode < 0xC0,
    ensures
        decodes_as(r, block_2_shape(opcode)),
{
    let mut i = Instruction::new();
    proof {
        bit::lemma_byte_fields(opcode);
    }
    assert((opcode & 0b1111_1000) >> 3u8 >= 0b1_0000 && (opcode & 0b1111_1000) >> 3u8 <= 0b1_0111);
    let r = R8::from_bits(opcode & 0b0000_0111);
    match r {
        Err(e) => Err(e),
        Ok(r) => {
            i.len = 1;
            if r == R8::HL {
                i.cycles = (8, 0);
            } else {
                i.cycles = (4, 0);
            }
            let family = (opcode & 0b1111_1000) >> 3;
            if family >= 0b1_0000 && family <= 0b1_0111 {
                return Ok(i);
            }
            Err(Error::Unimplemented(opcode))
        },
    }
}

fn is_invalid(opcode: u8) -> (r: bool)
    ensures
        r == is_invalid_opcode(opcode),
{
    let invalid: [u8; 11] = [0xD3, 0xDB, 0xDD, 0xE3, 0xE4, 0xEB, 0xEC, 0xED, 0xF4, 0xFC, 0xFD];
    let mut k: usize = 0;
    while k < 11
        invariant
            k <= 11,
            invalid@ == seq![0xD3u8, 0xDB, 0xDD, 0xE3, 0xE4, 0xEB, 0xEC, 0xED, 0xF4, 0xFC, 0xFD],
            forall|j: int| 0 <= j < k ==> invalid@[j] != opcode,
        decreases 11 - k,
    {
        if invalid[k] == opcode {
            return true;
        }
        k = k + 1;
    }
    false
}

fn decode_block_3(opcode: u8) -> (r: Result<Instruction, Error>)
    requires
        opcode >= 0xC0,
    ensures
        decodes_as(r, block_3_shape(opcode)),
{
    if is_invalid(opcode) {
        return Err(Error::InvalidOpCode(opcode));
    }
    let mut i = Instruction::new();
    if opcode == 0b1100_1011 {
        i.len = 1;
        i.cycles = (4, 0);
        return Ok(i);
    }
    proof {
        bit::lemma_byte_fields(opcode);
    }
    if (opcode & 0b111) == 0b110 {
        i.len = 2;
        i.cycles = (8, 0);
        return Ok(i);
    }
    match opcode {
        0b1110_0010 | 0b1111_0010 | 0b1111_1001 => {
            i.len = 1;
            i.cycles = (8, 0);
            return Ok(i);
        },
        0b1110_0000 | 0b1111_0000 | 0b1111_1000 => {
            i.len = 2;
            i.cycles = (12, 0);
            return Ok(i);
        },
        0b1110_1010 | 0b1111_1010 | 0b1100_0011 | 0b1110_1001 => {
            i.len = 3;
            i.cycles = (16, 0);
            return Ok(i);
        },
        0b1110_1000 => {
            i.len = 2;
            i.cycles = (16, 0);
            return Ok(i);
        },
        0b1111_0011 | 0b1111_1011 => {
            i.len = 1;
            i.cycles = (4, 0);
            return Ok(i);
        },
        0b1100_1001 | 0b1101_1001 => {
            i.len = 1;
            i.cycles = (16, 0);
            return Ok(i);
        },
        0b1100_1101 => {
            i.len = 3;
            i.cycles = (24, 0);
            return Ok(i);
        },
        _ => {},
    }
    let last_three = opcode & 0b111;
    match last_three {
        0b000 => {
            let c = Cond::from_bits((opcode & 0b0001_1000) >> 3);
            if let Err(e) = c {
                return Err(e);
            }
            i.len = 1;
            i.cycles = (8, 20);
            return Ok(i);
        },
        0b010 => {
            let c = Cond::from_bits((opcode & 0b0001_1000) >> 3);
            if let Err(e) = c {
                return Err(e);
            }
            i.len = 3;
            i.cycles = (12, 16);
            return Ok(i);
        },
        0b100 => {
            let c = Cond::from_bits((opcode & 0b0001_1000) >> 3);
            if let Err(e) = c {
                return Err(e);
            }
            i.len = 3;
            i.cycles = (12, 24);
            return Ok(i);
        },
        0b111 => {
            let _t = T3::from_field((opcode & 0b0011_1000) >> 3);
            i.len = 1;
            i.cycles = (16, 0);
            return Ok(i);
        },
        _ => {},
    }
    let last_four = opcode & 0b1111;
    match last_four {
        0b0001 => {
            let r = R16::r16stk((opcode & 0b0011_0000) >> 4);
            if let Err(e) = r {
                return Err(e);
            }
            i.len = 1;
            i.cycles = (12, 0);
            return Ok(i);
        },
        0b0101 => {
            let r = R16::r16stk((opcode & 0b0011_0000) >> 4);
            if let Err(e) = r {
                return Err(e);
            }
            i.len = 1;
            i.cycles = (16, 0);
            return Ok(i);
        },
        _ => {},
    }
    Err(Error::Unknown)
}

/// Decodes the opcode after a 0xCB prefix into its length and cycle counts.
pub fn decode_prefix(opcode: u8) -> (r: Result<Instruction, Error>)
    ensures
        decodes_as(r, Ok(prefix_shape(opcode))),
{
    let mut i = Instruction::new();
    proof {
        bit::lemma_byte_fields(opcode);
    }
    let r = R8::from_bits(opcode & 0b111);
    match r {
        Err(e) => Err(e),
        Ok(r) => {
            let first_five = (opcode & 0b1111_1000) >> 3;
            let last_two = (opcode & 0b1100_0000) >> 6;
            if first_five <= 0b111 {
                i.len = 2;
                if r == R8::HL {
                    i.cycles = (12, 0);
                } else {
                    i.cycles = (4, 0);
                }
                return Ok(i);
            }
            if last_two >= 0b01 && last_two <= 0b11 {
                if last_two == 0b01 {
                    let _b3: B3 = B3((((opcode & 0b11_1000) >> 3) & 0x3));
                }
                i.len = 2;
                if r == R8::HL {
                    i.cycles = (12, 0);
                } else {
                    i.cycles = (4, 0);
                }
                return Ok(i);
            }
            Err(Error::Unknown)
        },
    }
}

impl Clone for Step {
    fn clone(&self) -> (r: Step)
        ensures
            r.ops@ == self.ops@,
            r.done == self.done,
    {
        let r = Step { ops: self.ops.clone(), done: self.done };
        assert(r.ops@ =~= self.ops@);
        r
    }
}

impl Clone for Instruction {
    fn clone(&self) -> (r: Instruction)
        ensures
            same_instruction(r, *self),
    {
        let steps = self.steps.clone();
        proof {
            assert forall|k: int| 0 <= k < steps@.len() implies steps@[k].ops@ == self.steps@[
                k
            ].ops@ && steps@[k].done == self.steps@[k].done by {
                assert(cloned::<Step>(self.steps@[k], steps@[k]));
            }
            assert(step_ops(steps@) =~= step_ops(self.steps@));
        }
        Instruction {
            opcode: self.opcode,
            len: self.len,
            cycles: self.cycles,
            n8: self.n8,
            n16_lo: self.n16_lo,
            n16_hi: self.n16_hi,
            e: self.e,
            steps,
            eager: self.eager,
            branched: self.branched,
            done: self.done,
        }
    }
}

} // verus!
