use vstd::prelude::*;

use crate::text::{decimal_text, push_decimal, push_signed, signed_text};
use crate::utils::bit;

verus! {

/// Why an instruction could not be decoded.
#[derive(Debug, Clone, Copy, PartialEq, Eq, Structural)]
pub enum Error {
    Decode(DecodeError),
    Unknown,
}

impl From<DecodeError> for Error {
    fn from(value: DecodeError) -> (r: Error) {
        Error::Decode(value)
    }
}

impl vstd::std_specs::convert::FromSpecImpl<DecodeError> for Error {
    open spec fn obeys_from_spec() -> bool {
        true
    }

    open spec fn from_spec(v: DecodeError) -> Error {
        Error::Decode(v)
    }
}

/// What in an opcode could not be decoded.
#[derive(Debug, Clone, Copy, PartialEq, Eq, Structural)]
pub enum DecodeError {
    InvalidR8(u8),
    InvalidR16(u8),
    InvalidR16Stk(u8),
    InvalidR16Mem(u8),
    InvalidCond(u8),
    Unimplemented(u8),
    Unknown,
}

/// A flag value.
#[derive(Debug, Clone, Copy, PartialEq, Eq, Structural)]
pub enum FlagState {
    Reset,
    Raised,
}

impl Default for FlagState {
    fn default() -> (r: FlagState)
        ensures
            r == FlagState::Reset,
    {
        FlagState::Reset
    }
}

/// How an instruction treats a flag.
#[derive(Debug, Clone, Copy, PartialEq, Eq, Structural)]
pub enum FlagBehavior {
    Unaffected,
    Raise,
    Reset,
    Overflow(u8),
    Borrow(u8),
    IfZero(FlagState),
    Invert,
    Dependent,
}

impl Default for FlagBehavior {
    fn default() -> (r: FlagBehavior)
        ensures
            r == FlagBehavior::Unaffected,
    {
        FlagBehavior::Unaffected
    }
}

/// A decoded instruction: what it does, its length and timing, and how it
/// treats each flag.
#[derive(Debug, Clone, Copy, PartialEq, Eq)]
pub struct Instruction {
    pub opcode: u8,
    pub op: Operation,
    pub length: u8,
    pub cycles: (u8, u8),
    pub z: FlagBehavior,
    pub n: FlagBehavior,
    pub h: FlagBehavior,
    pub c: FlagBehavior,
    pub n8: Option<u8>,
    pub n16: Option<u16>,
}

/// A one-byte, four-cycle no-op for `opcode` that leaves every flag alone.
pub open spec fn plain(opcode: u8) -> Instruction {
    Instruction {
        opcode,
        op: Operation::NOP,
        length: 1,
        cycles: (4, 0),
        z: FlagBehavior::Unaffected,
        n: FlagBehavior::Unaffected,
        h: FlagBehavior::Unaffected,
        c: FlagBehavior::Unaffected,
        n8: None,
        n16: None,
    }
}

impl Instruction {
    pub fn new() -> (i: Instruction)
        ensures
            i == plain(0),
    {
        Instruction::default()
    }

    pub fn cycles(&self) -> (r: u8)
        ensures
            r == self.cycles.0,
    {
        self.cycles.0
    }

    pub fn branch_cycles(&self) -> (r: u8)
        ensures
            r == self.cycles.1,
    {
        self.cycles.1
    }

    pub fn op(&self) -> (r: Operation)
        ensures
            r == self.op,
    {
        self.op
    }
}

impl Default for Instruction {
    fn default() -> (i: Instruction)
        ensures
            i == plain(0),
    {
        Instruction {
            opcode: 0,
            op: Operation::NOP,
            length: 1,
            cycles: (4, 0),
            z: FlagBehavior::Unaffected,
            n: FlagBehavior::Unaffected,
            h: FlagBehavior::Unaffected,
            c: FlagBehavior::Unaffected,
            n8: None,
            n16: None,
        }
    }
}

/// An 8-bit operand.
#[derive(Debug, Clone, Copy, PartialEq, Eq, Structural)]
pub enum R8 {
    B,
    C,
    D,
    E,
    H,
    L,
    HL,
    A,
    N8,
}

/// The 8-bit operand of a 3-bit field.
pub open spec fn r8_of(v: u8) -> Result<R8, Error> {
    match v {
        0 => Ok(R8::B),
        1 => Ok(R8::C),
        2 => Ok(R8::D),
        3 => Ok(R8::E),
        4 => Ok(R8::H),
        5 => Ok(R8::L),
        6 => Ok(R8::HL),
        7 => Ok(R8::A),
        _ => Err(Error::Decode(DecodeError::InvalidR8(v))),
    }
}

impl TryFrom<u8> for R8 {
    type Error = Error;

    fn try_from(value: u8) -> (r: Result<R8, Error>) {
        match value {
            0 => Ok(R8::B),
            1 => Ok(R8::C),
            2 => Ok(R8::D),
            3 => Ok(R8::E),
            4 => Ok(R8::H),
            5 => Ok(R8::L),
            6 => Ok(R8::HL),
            7 => Ok(R8::A),
            _ => Err(DecodeError::InvalidR8(value).into()),
        }
    }
}

impl vstd::std_specs::convert::TryFromSpecImpl<u8> for R8 {
    open spec fn obeys_try_from_spec() -> bool {
        true
    }

    open spec fn try_from_spec(v: u8) -> Result<R8, Error> {
        r8_of(v)
    }
}

/// A memory operand.
#[derive(Debug, Clone, Copy, PartialEq, Eq, Structural)]
pub enum Mem {
    HL,
    BC,
    DE,
    SP,
    HLI,
    HLD,
    SPN8,
    N16,
    N8,
    C,
}

/// The memory operand of a 2-bit field.
pub open spec fn r16mem_of(v: u8) -> Result<Mem, Error> {
    match v {
        0 => Ok(Mem::BC),
        1 => Ok(Mem::DE),
        2 => Ok(Mem::HLI),
        3 => Ok(Mem::HLD),
        _ => Err(Error::Decode(DecodeError::InvalidR16Mem(v))),
    }
}

impl Mem {
    pub fn r16mem(value: u8) -> (r: Result<Mem, Error>)
        ensures
            r == r16mem_of(value),
    {
        match value {
            0 => Ok(Mem::BC),
            1 => Ok(Mem::DE),
            2 => Ok(Mem::HLI),
            3 => Ok(Mem::HLD),
            _ => Err(DecodeError::InvalidR16Mem(value).into()),
        }
    }
}

/// A 16-bit operand.
#[derive(Debug, Clone, Copy, PartialEq, Eq, Structural)]
pub enum R16 {
    BC,
    DE,
    HL,
    SP,
    AF,
    PC,
    N16,
}

/// The stack operand of a 2-bit field.
pub open spec fn r16stk_of(v: u8) -> Result<R16, Error> {
    match v {
        0 => Ok(R16::BC),
        1 => Ok(R16::DE),
        2 => Ok(R16::HL),
        3 => Ok(R16::AF),
        _ => Err(Error::Decode(DecodeError::InvalidR16Stk(v))),
    }
}

/// The 16-bit operand of a 2-bit field.
pub open spec fn r16_of(v: u8) -> Result<R16, Error> {
    match v {
        0 => Ok(R16::BC),
        1 => Ok(R16::DE),
        2 => Ok(R16::HL),
        3 => Ok(R16::SP),
        _ => Err(Error::Decode(DecodeError::InvalidR16(v))),
    }
}

impl R16 {
    pub fn r16stk(v: u8) -> (r: Result<R16, Error>)
        ensures
            r == r16stk_of(v),
    {
        match v {
            0 => Ok(R16::BC),
            1 => Ok(R16::DE),
            2 => Ok(R16::HL),
            3 => Ok(R16::AF),
            _ => Err(DecodeError::InvalidR16Stk(v).into()),
        }
    }
}

impl TryFrom<u8> for R16 {
    type Error = Error;

    fn try_from(value: u8) -> (r: Result<R16, Error>) {
        match value {
            0 => Ok(R16::BC),
            1 => Ok(R16::DE),
            2 => Ok(R16::HL),
            3 => Ok(R16::SP),
            _ => Err(DecodeError::InvalidR16(value).into()),
        }
    }
}

impl vstd::std_specs::convert::TryFromSpecImpl<u8> for R16 {
    open spec fn obeys_try_from_spec() -> bool {
        true
    }

    open spec fn try_from_spec(v: u8) -> Result<R16, Error> {
        r16_of(v)
    }
}

/// A branch condition.
#[derive(Debug, Clone, Copy, PartialEq, Eq, Structural)]
pub enum Cond {
    NZ,
    Z,
    NC,
    C,
}

/// The condition of a 2-bit field.
pub open spec fn cond_of(v: u8) -> Result<Cond, Error> {
    match v {
        0 => Ok(Cond::NZ),
        1 => Ok(Cond::Z),
        2 => Ok(Cond::NC),
        3 => Ok(Cond::C),
        _ => Err(Error::Decode(DecodeError::InvalidCond(v))),
    }
}

impl TryFrom<u8> for Cond {
    type Error = Error;

    fn try_from(value: u8) -> (r: Result<Cond, Error>) {
        match value {
            0 => Ok(Cond::NZ),
            1 => Ok(Cond::Z),
            2 => Ok(Cond::NC),
            3 => Ok(Cond::C),
            _ => Err(DecodeError::InvalidCond(value).into()),
        }
    }
}

impl vstd::std_specs::convert::TryFromSpecImpl<u8> for Cond {
    open spec fn obeys_try_from_spec() -> bool {
        true
    }

    open spec fn try_from_spec(v: u8) -> Result<Cond, Error> {
        cond_of(v)
    }
}

/// A bit number, from its low two bits.
#[derive(Debug, Clone, Copy, PartialEq, Eq, Structural)]
pub struct B3(pub u8);

impl B3 {
    pub fn val(&self) -> (r: u8)
        ensures
            r == self.0,
    {
        self.0
    }
}

impl From<u8> for B3 {
    fn from(value: u8) -> (r: B3) {
        proof {
            bit::lemma_byte_fields(value);
        }
        B3(value & 0x3)
    }
}

impl vstd::std_specs::convert::FromSpecImpl<u8> for B3 {
    open spec fn obeys_from_spec() -> bool {
        true
    }

    open spec fn from_spec(v: u8) -> B3 {
        B3(v % 4)
    }
}

/// A restart target: an eighth of its source.
#[derive(Debug, Clone, Copy, PartialEq, Eq, Structural)]
pub struct T3(pub u8);

impl From<u8> for T3 {
    fn from(value: u8) -> (r: T3) {
        T3(value / 8)
    }
}

impl vstd::std_specs::convert::FromSpecImpl<u8> for T3 {
    open spec fn obeys_from_spec() -> bool {
        true
    }

    open spec fn from_spec(v: u8) -> T3 {
        T3(v / 8)
    }
}

impl From<T3> for u8 {
    fn from(value: T3) -> (r: u8) {
        value.0
    }
}

impl vstd::std_specs::convert::FromSpecImpl<T3> for u8 {
    open spec fn obeys_from_spec() -> bool {
        true
    }

    open spec fn from_spec(v: T3) -> u8 {
        v.0
    }
}

/// What an instruction does.
#[derive(Debug, Clone, Copy, PartialEq, Eq, Structural)]
pub enum Operation {
    NOP,
    LD(LD),
    INC(INC),
    DEC(DEC),
    ADD(ADD),
    RLCA,
    RRCA,
    RLA,
    RRA,
    DAA,
    CPL,
    SCF,
    CCF,
    JR(JR),
    STOP,
    HALT,
    ADC,
    SUB,
    SBC,
    AND,
    XOR,
    OR,
    CP,
    RET,
    RETI,
    JP,
    CALL,
    RST,
    POP(R16),
    PUSH(R16),
    LDH,
    DI,
    EI,
    RR,
    RLC,
    RRC,
    RL,
    SLA,
    SRA,
    SWAP,
    SRL,
    BIT,
    RES,
    SET,
    PREFIX,
}

/// The operands of an addition.
#[derive(Debug, Clone, Copy, PartialEq, Eq, Structural)]
pub enum ADD {
    R8(R8, R8),
    R16(R16, R16),
    SP(i8),
}

impl From<ADD> for Operation {
    fn from(value: ADD) -> (r: Operation) {
        Operation::ADD(value)
    }
}

impl vstd::std_specs::convert::FromSpecImpl<ADD> for Operation {
    open spec fn obeys_from_spec() -> bool {
        true
    }

    open spec fn from_spec(v: ADD) -> Operation {
        Operation::ADD(v)
    }
}

/// The operands of a load.
#[derive(Debug, Clone, Copy, PartialEq, Eq, Structural)]
pub enum LD {
    R8(R8, R8),
    R16(R16, R16),
    MemR8(Mem, R8),
    R8Mem(R8, Mem),
    MemR16(Mem, R16),
}

impl From<LD> for Operation {
    fn from(value: LD) -> (r: Operation) {
        Operation::LD(value)
    }
}

impl vstd::std_specs::convert::FromSpecImpl<LD> for Operation {
    open spec fn obeys_from_spec() -> bool {
        true
    }

    open spec fn from_spec(v: LD) -> Operation {
        Operation::LD(v)
    }
}

/// The operand of an increment.
#[derive(Debug, Clone, Copy, PartialEq, Eq, Structural)]
pub enum INC {
    R8(R8),
    R16(R16),
}

impl From<INC> for Operation {
    fn from(value: INC) -> (r: Operation) {
        Operation::INC(value)
    }
}

impl vstd::std_specs::convert::FromSpecImpl<INC> for Operation {
    open spec fn obeys_from_spec() -> bool {
        true
    }

    open spec fn from_spec(v: INC) -> Operation {
        Operation::INC(v)
    }
}

/// The operand of a decrement.
#[derive(Debug, Clone, Copy, PartialEq, Eq, Structural)]
pub enum DEC {
    R8(R8),
    R16(R16),
}

impl From<DEC> for Operation {
    fn from(value: DEC) -> (r: Operation) {
        Operation::DEC(value)
    }
}

impl vstd::std_specs::convert::FromSpecImpl<DEC> for Operation {
    open spec fn obeys_from_spec() -> bool {
        true
    }

    open spec fn from_spec(v: DEC) -> Operation {
        Operation::DEC(v)
    }
}

/// A relative jump: always, or on a condition.
#[derive(Debug, Clone, Copy, PartialEq, Eq, Structural)]
pub enum JR {
    N8,
    Cond(Cond),
}

impl From<JR> for Operation {
    fn from(value: JR) -> (r: Operation) {
        Operation::JR(value)
    }
}

impl vstd::std_specs::convert::FromSpecImpl<JR> for Operation {
    open spec fn obeys_from_spec() -> bool {
        true
    }

    open spec fn from_spec(v: JR) -> Operation {
        Operation::JR(v)
    }
}

/// `plain(opcode)` doing `op`, with the given length and cycles.
pub open spec fn with_op(opcode: u8, op: Operation, length: u8, cycles: (u8, u8)) -> Instruction {
    Instruction { op, length, cycles, ..plain(opcode) }
}

/// The operand that a field names; every field value below four names one.
pub open spec fn r16_field(opcode: u8) -> R16 {
    r16_of((opcode / 16) % 4)->Ok_0
}

pub open spec fn r16mem_field(opcode: u8) -> Mem {
    r16mem_of((opcode / 16) % 4)->Ok_0
}

pub open spec fn r8_field(v: u8) -> R8 {
    r8_of(v % 8)->Ok_0
}

/// The instruction that an opcode of the first block (0x00..=0x3F) decodes to.
pub open spec fn block_0_of(opcode: u8) -> Result<Instruction, Error> {
    let lo4 = opcode % 16;
    let lo3 = opcode % 8;
    let y = (opcode / 8) % 8;
    let b43 = (opcode / 8) % 4;
    if opcode == 0x00 {
        Ok(plain(0))
    } else if opcode == 0xF0 {
        Ok(with_op(opcode, Operation::STOP, 1, (4, 0)))
    } else if lo4 == 1 {
        Ok(with_op(opcode, Operation::LD(LD::R16(r16_field(opcode), R16::N16)), 3, (12, 0)))
    } else if lo4 == 2 {
        Ok(with_op(opcode, Operation::LD(LD::MemR8(r16mem_field(opcode), R8::A)), 1, (8, 0)))
    } else if lo4 == 0xA {
        Ok(with_op(opcode, Operation::LD(LD::R8Mem(R8::A, r16mem_field(opcode))), 1, (8, 0)))
    } else if lo4 == 8 && (opcode / 16) % 4 == 0 {
        Ok(with_op(opcode, Operation::LD(LD::MemR16(Mem::N16, R16::SP)), 3, (20, 0)))
    } else if lo4 == 3 {
        Ok(with_op(opcode, Operation::INC(INC::R16(r16_field(opcode))), 1, (8, 0)))
    } else if lo4 == 0xB {
        Ok(with_op(opcode, Operation::DEC(DEC::R16(r16_field(opcode))), 1, (8, 0)))
    } else if lo4 == 9 {
        Ok(
            Instruction {
                n: FlagBehavior::Reset,
                h: FlagBehavior::Overflow(11),
                c: FlagBehavior::Overflow(15),
                ..with_op(opcode, Operation::ADD(ADD::R16(R16::HL, r16_field(opcode))), 1, (8, 0))
            },
        )
    } else if lo3 == 4 {
        Ok(
            Instruction {
                z: FlagBehavior::IfZero(FlagState::Reset),
                n: FlagBehavior::Reset,
                h: FlagBehavior::Overflow(3),
                ..with_op(opcode, Operation::INC(INC::R8(r8_field(y))), 1, (4, 0))
            },
        )
    } else if lo3 == 5 {
        Ok(
            Instruction {
                z: FlagBehavior::IfZero(FlagState::Raised),
                h: FlagBehavior::Borrow(4),
                n: FlagBehavior::Raise,
                ..with_op(opcode, Operation::DEC(DEC::R8(r8_field(y))), 1, (4, 0))
            },
        )
    } else if lo3 == 6 {
        Ok(
            with_op(
                opcode,
                Operation::LD(LD::R8(r8_field(y), R8::N8)),
                2,
                if r8_field(y) == R8::HL {
                    (12, 0)
                } else {
                    (4, 0)
                },
            ),
        )
    } else if lo3 == 0 {
        if b43 == 3 {
            Ok(with_op(opcode, Operation::JR(JR::N8), 2, (12, 0)))
        } else {
            Ok(with_op(opcode, Operation::JR(JR::Cond(cond_of(b43)->Ok_0)), 2, (8, 12)))
        }
    } else if opcode == 0x07 || opcode == 0x0F || opcode == 0x17 || opcode == 0x1F {
        let op = if opcode == 0x07 {
            Operation::RLCA
        } else if opcode == 0x0F {
            Operation::RRCA
        } else if opcode == 0x17 {
            Operation::RLA
        } else {
            Operation::RRA
        };
        Ok(
            Instruction {
                z: FlagBehavior::Reset,
                n: FlagBehavior::Reset,
                h: FlagBehavior::Reset,
                c: FlagBehavior::Dependent,
                ..with_op(opcode, op, 1, (4, 0))
            },
        )
    } else if opcode == 0x27 {
        Ok(
            Instruction {
                h: FlagBehavior::Reset,
                c: FlagBehavior::Dependent,
                z: FlagBehavior::IfZero(FlagState::Raised),
                ..with_op(opcode, Operation::DAA, 1, (4, 0))
            },
        )
    } else if opcode == 0x2F {
        Ok(
            Instruction {
                n: FlagBehavior::Raise,
                h: FlagBehavior::Raise,
                ..with_op(opcode, Operation::CPL, 1, (4, 0))
            },
        )
    } else if opcode == 0x37 {
        Ok(
            Instruction {
                n: FlagBehavior::Reset,
                h: FlagBehavior::Reset,
                c: FlagBehavior::Raise,
                ..with_op(opcode, Operation::SCF, 1, (4, 0))
            },
        )
    } else if opcode == 0x3F {
        Ok(
            Instruction {
                n: FlagBehavior::Reset,
                h: FlagBehavior::Reset,
                c: FlagBehavior::Invert,
                ..with_op(opcode, Operation::CCF, 1, (4, 0))
            },
        )
    } else {
        Err(Error::Decode(DecodeError::Unimplemented(opcode)))
    }
}

/// The register of `inc r`, `dec r` and `ld r, n8` is the 3-bit field at bits
/// 3 to 5 of the opcode, read as `R8::try_from` reads it; INC and DEC are one
/// byte long and `ld r, n8` two.
pub proof fn lemma_block_0_register_field(opcode: u8)
    requires
        opcode < 0x40,
    ensures
        opcode % 8 == 4 ==> decode_spec(opcode) is Ok && decode_spec(opcode)->Ok_0.op
            == Operation::INC(INC::R8(r8_of((opcode / 8) % 8)->Ok_0)) && decode_spec(
            opcode,
        )->Ok_0.length == 1,
        opcode % 8 == 5 ==> decode_spec(opcode) is Ok && decode_spec(opcode)->Ok_0.op
            == Operation::DEC(DEC::R8(r8_of((opcode / 8) % 8)->Ok_0)) && decode_spec(
            opcode,
        )->Ok_0.length == 1,
        opcode % 8 == 6 ==> decode_spec(opcode) is Ok && decode_spec(opcode)->Ok_0.op
            == Operation::LD(LD::R8(r8_of((opcode / 8) % 8)->Ok_0, R8::N8)) && decode_spec(
            opcode,
        )->Ok_0.length == 2,
        r8_of((opcode / 8) % 8) is Ok,
{
}

/// The instruction that an opcode of the second block (0x40..=0x7F) decodes
/// to: a register-to-register load, or HALT where both operands are [hl].
pub open spec fn block_1_of(opcode: u8) -> Instruction {
    let a = r8_field(opcode / 8);
    let b = r8_field(opcode);
    if opcode == 0x76 {
        with_op(opcode, Operation::HALT, 1, (4, 0))
    } else if a == R8::HL {
        with_op(opcode, Operation::LD(LD::MemR8(Mem::HL, b)), 1, (8, 0))
    } else if b == R8::HL {
        with_op(opcode, Operation::LD(LD::R8Mem(a, Mem::HL)), 1, (8, 0))
    } else {
        with_op(opcode, Operation::LD(LD::R8(a, b)), 1, (4, 0))
    }
}

/// What `decode` gives: the first block, loads and HALT in the second, the
/// stack pushes and pops in the fourth; the rest is not known.
pub open spec fn decode_spec(opcode: u8) -> Result<Instruction, Error> {
    if opcode < 0x40 {
        block_0_of(opcode)
    } else if opcode < 0x80 {
        Ok(block_1_of(opcode))
    } else if opcode >= 0xC0 && opcode % 16 == 5 {
        Ok(with_op(opcode, Operation::PUSH(r16stk_of((opcode / 16) % 4)->Ok_0), 1, (16, 0)))
    } else if opcode >= 0xC0 && opcode % 16 == 1 {
        Ok(with_op(opcode, Operation::POP(r16stk_of((opcode / 16) % 4)->Ok_0), 1, (12, 0)))
    } else {
        Err(Error::Unknown)
    }
}

/// Decodes an opcode.
pub fn decode(opcode: u8) -> (r: Result<Instruction, Error>)
    ensures
        r == decode_spec(opcode),
{
    proof {
        bit::lemma_byte_fields(opcode);
    }
    match (opcode >> 6) & 0x3 {
        0x00 => decode_block_0(opcode),
        0x01 => Ok(decode_block_1(opcode)),
        0x03 => decode_block_3(opcode),
        _ => Err(Error::Unknown),
    }
}

/// The first block: loads, increments, decrements, additions to HL, relative
/// jumps and the accumulator operations.
fn decode_block_0(opcode: u8) -> (r: Result<Instruction, Error>)
    requires
        opcode < 0x40,
    ensures
        r == block_0_of(opcode),
{
    if opcode == 0x00 {
        return Ok(Instruction::default());
    }
    if opcode == 0xF0 {
        let mut i = Instruction::new();
        i.opcode = opcode;
        i.op = Operation::STOP;
        return Ok(i);
    }
    proof {
        bit::lemma_byte_fields(opcode);
    }
    let mut i = Instruction { opcode, ..Default::default() };
    let last_four = opcode & 0b1111;
    let p = (opcode & 0b0011_0000) >> 4;
    match last_four {
        0b0001 => {
            let r16 = match R16::try_from(p) {
                Ok(r) => r,
                Err(e) => {
                    return Err(e);
                },
            };
            i.op = LD::R16(r16, R16::N16).into();
            i.cycles = (12, 0);
            i.length = 3;
            return Ok(i);
        },
        0b0010 => {
            let r16 = match Mem::r16mem(p) {
                Ok(r) => r,
                Err(e) => {
                    return Err(e);
                },
            };
            i.op = LD::MemR8(r16, R8::A).into();
            i.length = 1;
            i.cycles = (8, 0);
            return Ok(i);
        },
        0b1010 => {
            let rm = match Mem::r16mem(p) {
                Ok(r) => r,
                Err(e) => {
                    return Err(e);
                },
            };
            i.op = LD::R8Mem(R8::A, rm).into();
            i.length = 1;
            i.cycles = (8, 0);
            return Ok(i);
        },
        0b1000 => {
            if p == 0b00 {
                i.op = LD::MemR16(Mem::N16, R16::SP).into();
                i.length = 3;
                i.cycles = (20, 0);
                return Ok(i);
            }
        },
        0b0011 => {
            let r = match R16::try_from(p) {
                Ok(r) => r,
                Err(e) => {
                    return Err(e);
                },
            };
            i.op = INC::R16(r).into();
            i.length = 1;
            i.cycles = (8, 0);
            return Ok(i);
        },
        0b1011 => {
            let r = match R16::try_from(p) {
                Ok(r) => r,
                Err(e) => {
                    return Err(e);
                },
            };
            i.op = DEC::R16(r).into();
            i.length = 1;
            i.cycles = (8, 0);
            return Ok(i);
        },
        0b1001 => {
            let r = match R16::try_from(p) {
                Ok(r) => r,
                Err(e) => {
                    return Err(e);
                },
            };
            i.op = ADD::R16(R16::HL, r).into();
            i.length = 1;
            i.cycles = (8, 0);
            i.n = FlagBehavior::Reset;
            i.h = FlagBehavior::Overflow(11);
            i.c = FlagBehavior::Overflow(15);
            return Ok(i);
        },
        _ => {},
    }
    decode_block_0_rest(opcode, i)
}

/// The first block, by the low three bits and then by the whole opcode.
fn decode_block_0_rest(opcode: u8, i: Instruction) -> (r: Result<Instruction, Error>)
    requires
        0 < opcode < 0x40,
        opcode % 16 != 1 && opcode % 16 != 2 && opcode % 16 != 0xA && opcode % 16 != 3
            && opcode % 16 != 0xB && opcode % 16 != 9,
        opcode % 16 == 8 ==> (opcode / 16) % 4 != 0,
        i == plain(opcode),
    ensures
        r == block_0_of(opcode),
{
    let mut i = i;
    proof {
        bit::lemma_byte_fields(opcode);
    }
    let last_three = opcode & 0b111;
    let y = (opcode & 0b0011_1000) >> 3;
    match last_three {
        0b100 => {
            let r = match R8::try_from(y) {
                Ok(r) => r,
                Err(e) => {
                    return Err(e);
                },
            };
            i.op = INC::R8(r).into();
            i.length = 1;
            i.cycles = (4, 0);
            i.z = FlagBehavior::IfZero(FlagState::Reset);
            i.n = FlagBehavior::Reset;
            i.h = FlagBehavior::Overflow(3);
            return Ok(i);
        },
        0b101 => {
            let r = match R8::try_from(y) {
                Ok(r) => r,
                Err(e) => {
                    return Err(e);
                },
            };
            i.op = DEC::R8(r).into();
            i.length = 1;
            i.cycles = (4, 0);
            i.z = FlagBehavior::IfZero(FlagState::Raised);
            i.h = FlagBehavior::Borrow(4);
            i.n = FlagBehavior::Raise;
            return Ok(i);
        },
        0b110 => {
            let r = match R8::try_from(y) {
                Ok(r) => r,
                Err(e) => {
                    return Err(e);
                },
            };
            i.op = LD::R8(r, R8::N8).into();
            i.length = 2;
            match r {
                R8::HL => i.cycles = (12, 0),
                _ => i.cycles = (4, 0),
            }
            return Ok(i);
        },
        0b000 => {
            let bits_43 = (opcode & 0b0001_1000) >> 3;
            match bits_43 {
                0b11 => {
                    i.op = JR::N8.into();
                    i.length = 2;
                    i.cycles = (12, 0);
                    return Ok(i);
                },
                _ => {
                    let c = match Cond::try_from(bits_43) {
                        Ok(c) => c,
                        Err(e) => {
                            return Err(e);
                        },
                    };
                    i.op = JR::Cond(c).into();
                    i.length = 2;
                    i.cycles = (8, 12);
                    return Ok(i);
                },
            }
        },
        _ => {},
    }
    match opcode {
        0b0000_0111 => {
            i.op = Operation::RLCA;
        },
        0b0000_1111 => {
            i.op = Operation::RRCA;
        },
        0b0001_0111 => {
            i.op = Operation::RLA;
        },
        0b0001_1111 => {
            i.op = Operation::RRA;
        },
        0b0010_0111 => {
            i.op = Operation::DAA;
            i.length = 1;
            i.cycles = (4, 0);
            i.h = FlagBehavior::Reset;
            i.c = FlagBehavior::Dependent;
            i.z = FlagBehavior::IfZero(FlagState::Raised);
            return Ok(i);
        },
        0b0010_1111 => {
            i.op = Operation::CPL;
            i.length = 1;
            i.cycles = (4, 0);
            i.n = FlagBehavior::Raise;
            i.h = FlagBehavior::Raise;
            return Ok(i);
        },
        0b0011_0111 => {
            i.op = Operation::SCF;
            i.length = 1;
            i.cycles = (4, 0);
            i.n = FlagBehavior::Reset;
            i.h = FlagBehavior::Reset;
            i.c = FlagBehavior::Raise;
            return Ok(i);
        },
        0b0011_1111 => {
            i.op = Operation::CCF;
            i.length = 1;
            i.cycles = (4, 0);
            i.n = FlagBehavior::Reset;
            i.h = FlagBehavior::Reset;
            i.c = FlagBehavior::Invert;
            return Ok(i);
        },
        _ => {
            return Err(DecodeError::Unimplemented(opcode).into());
        },
    }
    // the four rotations of A share their shape
    i.length = 1;
    i.cycles = (4, 0);
    i.z = FlagBehavior::Reset;
    i.n = FlagBehavior::Reset;
    i.h = FlagBehavior::Reset;
    i.c = FlagBehavior::Dependent;
    Ok(i)
}

/// The second block: HALT, and loads between 8-bit operands.
fn decode_block_1(opcode: u8) -> (i: Instruction)
    requires
        0x40 <= opcode < 0x80,
    ensures
        i == block_1_of(opcode),
{
    let mut i = Instruction { opcode, ..Default::default() };
    if opcode == 0b0111_0110 {
        i.op = Operation::HALT;
        return i;
    }
    proof {
        bit::lemma_byte_fields(opcode);
    }
    let dest = match R8::try_from((opcode & 0b0011_1000) >> 3) {
        Ok(r) => r,
        Err(_) => R8::A,
    };
    let src = match R8::try_from(opcode & 0b0000_0111) {
        Ok(r) => r,
        Err(_) => R8::A,
    };
    i.length = 1;
    if dest == R8::HL {
        i.op = LD::MemR8(Mem::HL, src).into();
        i.cycles = (8, 0);
    } else if src == R8::HL {
        i.op = LD::R8Mem(dest, Mem::HL).into();
        i.cycles = (8, 0);
    } else {
        i.op = LD::R8(dest, src).into();
        i.cycles = (4, 0);
    }
    i
}

/// The fourth block: the stack pushes and pops; the rest is not known.
fn decode_block_3(opcode: u8) -> (r: Result<Instruction, Error>)
    requires
        opcode >= 0xC0,
    ensures
        r == decode_spec(opcode),
{
    proof {
        bit::lemma_byte_fields(opcode);
    }
    let qq = (opcode & 0b0011_0000) >> 4;
    let mut i = Instruction { opcode, ..Default::default() };
    if opcode & 0b1111 == 0b0101 {
        let r = match R16::r16stk(qq) {
            Ok(r) => r,
            Err(e) => {
                return Err(e);
            },
        };
        i.op = Operation::PUSH(r);
        i.cycles = (16, 0);
        return Ok(i);
    }
    if opcode & 0b1111 == 0b0001 {
        let r = match R16::r16stk(qq) {
            Ok(r) => r,
            Err(e) => {
                return Err(e);
            },
        };
        i.op = Operation::POP(r);
        i.cycles = (12, 0);
        return Ok(i);
    }
    Err(Error::Unknown)
}

/// The assembly text of an 8-bit operand.
pub open spec fn r8_text(r: R8) -> Seq<char> {
    match r {
        R8::B => "b"@,
        R8::C => "c"@,
        R8::D => "d"@,
        R8::E => "e"@,
        R8::H => "h"@,
        R8::L => "l"@,
        R8::HL => "[hl]"@,
        R8::A => "a"@,
        R8::N8 => "n8"@,
    }
}

/// The assembly text of a memory operand.
pub open spec fn mem_text(m: Mem) -> Seq<char> {
    match m {
        Mem::C => "[c]"@,
        Mem::N16 => "[n16]"@,
        Mem::N8 => "[n8]"@,
        Mem::DE => "[de]"@,
        Mem::BC => "[bc]"@,
        Mem::SP => "[sp]"@,
        Mem::HL => "[hl]"@,
        Mem::HLI => "[hl+]"@,
        Mem::HLD => "[hl-]"@,
        Mem::SPN8 => "sp + n8"@,
    }
}

/// The assembly text of a 16-bit operand.
pub open spec fn r16_text(r: R16) -> Seq<char> {
    match r {
        R16::BC => "bc"@,
        R16::DE => "de"@,
        R16::HL => "hl"@,
        R16::SP => "sp"@,
        R16::AF => "af"@,
        R16::PC => "pc"@,
        R16::N16 => "n16"@,
    }
}

/// The assembly text of a condition.
pub open spec fn cond_text(c: Cond) -> Seq<char> {
    match c {
        Cond::NZ => "nz"@,
        Cond::Z => "z"@,
        Cond::NC => "nc"@,
        Cond::C => "c"@,
    }
}

/// An 8-bit operand's text with `n8` standing for the immediate byte.
pub open spec fn r8_text_with(r: R8, n8: Seq<char>) -> Seq<char> {
    match r {
        R8::N8 => n8,
        _ => r8_text(r),
    }
}

/// A memory operand's text with `n8` and `n16` standing for the immediates.
pub open spec fn mem_text_with(m: Mem, n8: Seq<char>, n16: Seq<char>) -> Seq<char> {
    match m {
        Mem::N16 => "["@ + n16 + "]"@,
        Mem::N8 => "["@ + n8 + "]"@,
        Mem::SPN8 => "sp + "@ + n8,
        _ => mem_text(m),
    }
}

/// A 16-bit operand's text with `n16` standing for the immediate word.
pub open spec fn r16_text_with(r: R16, n16: Seq<char>) -> Seq<char> {
    match r {
        R16::N16 => n16,
        _ => r16_text(r),
    }
}

/// The text of an addition: `add` and the operands, with no space between.
pub open spec fn add_text_with(a: ADD, n8: Seq<char>, n16: Seq<char>) -> Seq<char> {
    match a {
        ADD::R16(x, y) => "add"@ + r16_text_with(x, n16) + ", "@ + r16_text_with(y, n16),
        ADD::R8(x, y) => "add"@ + r8_text_with(x, n8) + ", "@ + r8_text_with(y, n8),
        ADD::SP(e) => "add"@ + "sp, "@ + signed_text(e),
    }
}

/// The text of a load: `ld` and the operands, with no space between.
pub open spec fn ld_text_with(l: LD, n8: Seq<char>, n16: Seq<char>) -> Seq<char> {
    match l {
        LD::R16(a, b) => "ld"@ + r16_text_with(a, n16) + ", "@ + r16_text_with(b, n16),
        LD::R8(a, b) => "ld"@ + r8_text_with(a, n8) + ", "@ + r8_text_with(b, n8),
        LD::MemR8(a, b) => "ld"@ + mem_text_with(a, n8, n16) + ", "@ + r8_text_with(b, n8),
        LD::R8Mem(a, b) => "ld"@ + r8_text_with(a, n8) + ", "@ + mem_text_with(b, n8, n16),
        LD::MemR16(a, b) => "ld"@ + mem_text_with(a, n8, n16) + ", "@ + r16_text_with(b, n16),
    }
}

/// The text of an increment.
pub open spec fn inc_text_with(i: INC, n8: Seq<char>, n16: Seq<char>) -> Seq<char> {
    match i {
        INC::R8(r) => "inc "@ + r8_text_with(r, n8),
        INC::R16(r) => "inc "@ + r16_text_with(r, n16),
    }
}

/// The text of a decrement, which reads `inc` as an increment's does.
pub open spec fn dec_text_with(d: DEC, n8: Seq<char>, n16: Seq<char>) -> Seq<char> {
    match d {
        DEC::R8(r) => "inc "@ + r8_text_with(r, n8),
        DEC::R16(r) => "inc "@ + r16_text_with(r, n16),
    }
}

/// The text of a relative jump.
pub open spec fn jr_text_with(j: JR, n8: Seq<char>) -> Seq<char> {
    match j {
        JR::N8 => "jr "@ + n8,
        JR::Cond(c) => "jr "@ + cond_text(c) + ", "@ + n8,
    }
}

/// The text of an operation: NOP, the loads, increments, decrements, additions,
/// relative jumps and STOP have one; every other operation reads as empty.
pub open spec fn operation_text_with(op: Operation, n8: Seq<char>, n16: Seq<char>) -> Seq<char> {
    match op {
        Operation::NOP => "nop"@,
        Operation::LD(l) => ld_text_with(l, n8, n16),
        Operation::INC(i) => inc_text_with(i, n8, n16),
        Operation::DEC(d) => dec_text_with(d, n8, n16),
        Operation::ADD(a) => add_text_with(a, n8, n16),
        Operation::JR(j) => jr_text_with(j, n8),
        Operation::STOP => "stop"@,
        _ => Seq::empty(),
    }
}

/// What stands for the immediate byte in an instruction's text: its value in
/// decimal once known.
pub open spec fn n8_text(n8: Option<u8>) -> Seq<char> {
    match n8 {
        Some(n) => decimal_text(n as nat),
        None => "n8"@,
    }
}

/// What stands for the immediate word in an instruction's text: the immediate
/// byte's value in decimal once that is known.
pub open spec fn n16_text(n8: Option<u8>) -> Seq<char> {
    match n8 {
        Some(n) => decimal_text(n as nat),
        None => "n16"@,
    }
}

impl R8 {
    pub fn as_str(&self) -> (s: &'static str)
        ensures
            s@ == r8_text(*self),
    {
        match self {
            R8::B => "b",
            R8::C => "c",
            R8::D => "d",
            R8::E => "e",
            R8::H => "h",
            R8::L => "l",
            R8::HL => "[hl]",
            R8::A => "a",
            R8::N8 => "n8",
        }
    }
}

impl Mem {
    pub fn as_str(&self) -> (s: &'static str)
        ensures
            s@ == mem_text(*self),
    {
        match self {
            Mem::C => "[c]",
            Mem::N16 => "[n16]",
            Mem::N8 => "[n8]",
            Mem::DE => "[de]",
            Mem::BC => "[bc]",
            Mem::SP => "[sp]",
            Mem::HL => "[hl]",
            Mem::HLI => "[hl+]",
            Mem::HLD => "[hl-]",
            Mem::SPN8 => "sp + n8",
        }
    }
}

impl R16 {
    pub fn as_str(&self) -> (s: &'static str)
        ensures
            s@ == r16_text(*self),
    {
        match self {
            R16::BC => "bc",
            R16::DE => "de",
            R16::HL => "hl",
            R16::SP => "sp",
            R16::AF => "af",
            R16::PC => "pc",
            R16::N16 => "n16",
        }
    }
}

impl Cond {
    pub fn as_str(&self) -> (s: &'static str)
        ensures
            s@ == cond_text(*self),
    {
        match self {
            Cond::NZ => "nz",
            Cond::Z => "z",
            Cond::NC => "nc",
            Cond::C => "c",
        }
    }
}

impl B3 {
    /// The bit number in decimal.
    pub fn to_string(&self) -> (s: String)
        ensures
            s@ == decimal_text(self.0 as nat),
    {
        let mut s = String::new();
        push_decimal(&mut s, self.0);
        s
    }
}

impl T3 {
    /// The restart field in decimal.
    pub fn to_string(&self) -> (s: String)
        ensures
            s@ == decimal_text(self.0 as nat),
    {
        let mut s = String::new();
        push_decimal(&mut s, self.0);
        s
    }
}

/// Appends an 8-bit operand, `n8` standing for the immediate byte.
fn push_r8(s: &mut String, r: R8, n8: &str)
    ensures
        final(s)@ == old(s)@ + r8_text_with(r, n8@),
{
    match r {
        R8::N8 => s.append(n8),
        _ => s.append(r.as_str()),
    }
}

/// Appends a 16-bit operand, `n16` standing for the immediate word.
fn push_r16(s: &mut String, r: R16, n16: &str)
    ensures
        final(s)@ == old(s)@ + r16_text_with(r, n16@),
{
    match r {
        R16::N16 => s.append(n16),
        _ => s.append(r.as_str()),
    }
}

/// Appends a memory operand, `n8` and `n16` standing for the immediates.
fn push_mem(s: &mut String, m: Mem, n8: &str, n16: &str)
    ensures
        final(s)@ == old(s)@ + mem_text_with(m, n8@, n16@),
{
    match m {
        Mem::N16 => {
            s.append("[");
            s.append(n16);
            s.append("]");
            assert(s@ =~= old(s)@ + ("["@ + n16@ + "]"@));
        },
        Mem::N8 => {
            s.append("[");
            s.append(n8);
            s.append("]");
            assert(s@ =~= old(s)@ + ("["@ + n8@ + "]"@));
        },
        Mem::SPN8 => {
            s.append("sp + ");
            s.append(n8);
            assert(s@ =~= old(s)@ + ("sp + "@ + n8@));
        },
        _ => s.append(m.as_str()),
    }
}

/// Appends `a, b`.
fn push_pair(s: &mut String, a: &str, b: &str)
    ensures
        final(s)@ == old(s)@ + a@ + ", "@ + b@,
{
    s.append(a);
    s.append(", ");
    s.append(b);
}

/// Appends a load's text.
fn push_ld(s: &mut String, l: LD, n8: &str, n16: &str)
    ensures
        final(s)@ == old(s)@ + ld_text_with(l, n8@, n16@),
{
    let ghost s0 = s@;
    s.append("ld");
    match l {
        LD::R16(a, b) => {
            push_r16(s, a, n16);
            s.append(", ");
            push_r16(s, b, n16);
        },
        LD::R8(a, b) => {
            push_r8(s, a, n8);
            s.append(", ");
            push_r8(s, b, n8);
        },
        LD::MemR8(a, b) => {
            push_mem(s, a, n8, n16);
            s.append(", ");
            push_r8(s, b, n8);
        },
        LD::R8Mem(a, b) => {
            push_r8(s, a, n8);
            s.append(", ");
            push_mem(s, b, n8, n16);
        },
        LD::MemR16(a, b) => {
            push_mem(s, a, n8, n16);
            s.append(", ");
            push_r16(s, b, n16);
        },
    }
    assert(s@ =~= s0 + ld_text_with(l, n8@, n16@));
}

/// Appends an addition's text.
fn push_add(s: &mut String, a: ADD, n8: &str, n16: &str)
    ensures
        final(s)@ == old(s)@ + add_text_with(a, n8@, n16@),
{
    let ghost s0 = s@;
    s.append("add");
    match a {
        ADD::R16(x, y) => {
            push_r16(s, x, n16);
            s.append(", ");
            push_r16(s, y, n16);
        },
        ADD::R8(x, y) => {
            push_r8(s, x, n8);
            s.append(", ");
            push_r8(s, y, n8);
        },
        ADD::SP(e) => {
            s.append("sp, ");
            push_signed(s, e);
        },
    }
    assert(s@ =~= s0 + add_text_with(a, n8@, n16@));
}

/// Appends an increment's text.
fn push_inc(s: &mut String, i: INC, n8: &str, n16: &str)
    ensures
        final(s)@ == old(s)@ + inc_text_with(i, n8@, n16@),
{
    let ghost s0 = s@;
    s.append("inc ");
    match i {
        INC::R8(r) => push_r8(s, r, n8),
        INC::R16(r) => push_r16(s, r, n16),
    }
    assert(s@ =~= s0 + inc_text_with(i, n8@, n16@));
}

/// Appends a decrement's text.
fn push_dec(s: &mut String, d: DEC, n8: &str, n16: &str)
    ensures
        final(s)@ == old(s)@ + dec_text_with(d, n8@, n16@),
{
    let ghost s0 = s@;
    s.append("inc ");
    match d {
        DEC::R8(r) => push_r8(s, r, n8),
        DEC::R16(r) => push_r16(s, r, n16),
    }
    assert(s@ =~= s0 + dec_text_with(d, n8@, n16@));
}

/// Appends a relative jump's text.
fn push_jr(s: &mut String, j: JR, n8: &str)
    ensures
        final(s)@ == old(s)@ + jr_text_with(j, n8@),
{
    let ghost s0 = s@;
    s.append("jr ");
    match j {
        JR::N8 => s.append(n8),
        JR::Cond(c) => {
            s.append(c.as_str());
            s.append(", ");
            s.append(n8);
        },
    }
    assert(s@ =~= s0 + jr_text_with(j, n8@));
}

/// Appends an operation's text, `n8` and `n16` standing for the immediates.
fn push_operation(s: &mut String, op: Operation, n8: &str, n16: &str)
    ensures
        final(s)@ == old(s)@ + operation_text_with(op, n8@, n16@),
{
    match op {
        Operation::NOP => s.append("nop"),
        Operation::STOP => s.append("stop"),
        Operation::LD(l) => push_ld(s, l, n8, n16),
        Operation::INC(i) => push_inc(s, i, n8, n16),
        Operation::DEC(d) => push_dec(s, d, n8, n16),
        Operation::ADD(a) => push_add(s, a, n8, n16),
        Operation::JR(j) => push_jr(s, j, n8),
        _ => {
            assert(s@ =~= old(s)@ + operation_text_with(op, n8@, n16@));
        },
    }
}

impl Operation {
    /// The operation's text, with `n8` and `n16` for the immediates.
    pub fn to_string(&self) -> (s: String)
        ensures
            s@ == operation_text_with(*self, "n8"@, "n16"@),
    {
        let mut s = String::new();
        push_operation(&mut s, *self, "n8", "n16");
        assert(s@ =~= operation_text_with(*self, "n8"@, "n16"@));
        s
    }
}

impl ADD {
    pub fn to_string(&self) -> (s: String)
        ensures
            s@ == add_text_with(*self, "n8"@, "n16"@),
    {
        let mut s = String::new();
        push_add(&mut s, *self, "n8", "n16");
        assert(s@ =~= add_text_with(*self, "n8"@, "n16"@));
        s
    }
}

impl LD {
    pub fn to_string(&self) -> (s: String)
        ensures
            s@ == ld_text_with(*self, "n8"@, "n16"@),
    {
        let mut s = String::new();
        push_ld(&mut s, *self, "n8", "n16");
        assert(s@ =~= ld_text_with(*self, "n8"@, "n16"@));
        s
    }
}

impl INC {
    pub fn to_string(&self) -> (s: String)
        ensures
            s@ == inc_text_with(*self, "n8"@, "n16"@),
    {
        let mut s = String::new();
        push_inc(&mut s, *self, "n8", "n16");
        assert(s@ =~= inc_text_with(*self, "n8"@, "n16"@));
        s
    }
}

impl DEC {
    pub fn to_string(&self) -> (s: String)
        ensures
            s@ == dec_text_with(*self, "n8"@, "n16"@),
    {
        let mut s = String::new();
        push_dec(&mut s, *self, "n8", "n16");
        assert(s@ =~= dec_text_with(*self, "n8"@, "n16"@));
        s
    }
}

impl JR {
    pub fn to_string(&self) -> (s: String)
        ensures
            s@ == jr_text_with(*self, "n8"@),
    {
        let mut s = String::new();
        push_jr(&mut s, *self, "n8");
        assert(s@ =~= jr_text_with(*self, "n8"@));
        s
    }
}

impl Instruction {
    /// The operation's text with the immediates filled in: both `n8` and
    /// `n16` read as the immediate byte in decimal once it is known.
    pub fn to_string(&self) -> (s: String)
        ensures
            s@ == operation_text_with(self.op, n8_text(self.n8), n16_text(self.n8)),
    {
        let mut s = String::new();
        match self.n8 {
            Some(n) => {
                let mut digits = String::new();
                push_decimal(&mut digits, n);
                push_operation(&mut s, self.op, digits.as_str(), digits.as_str());
            },
            None => push_operation(&mut s, self.op, "n8", "n16"),
        }
        assert(s@ =~= operation_text_with(self.op, n8_text(self.n8), n16_text(self.n8)));
        s
    }
}

} // verus!
