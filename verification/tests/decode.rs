use gbc::cpu::instr::{self, Cond as StepCond, Mem as StepMem, R16 as StepR16, R8 as StepR8};
use gbc::instructions::{self, Cond, DecodeError, Error, Operation, ADD, INC, JR, LD, R16, R8};

#[test]
fn decoder_first_block() {
    for op in 0x00..0x40u8 {
        assert!(instructions::decode(op).is_ok(), "opcode {op:02x}");
    }
    let i = instructions::decode(0x01).unwrap();
    assert_eq!(i.op(), Operation::LD(LD::R16(R16::BC, R16::N16)));
    assert_eq!(i.length, 3);
    assert_eq!(i.cycles(), 12);
    let i = instructions::decode(0x09).unwrap();
    assert_eq!(i.op(), Operation::ADD(ADD::R16(R16::HL, R16::BC)));
    let i = instructions::decode(0x3C).unwrap();
    assert_eq!(i.op(), Operation::INC(INC::R8(R8::A)));
    let i = instructions::decode(0x18).unwrap();
    assert_eq!(i.op(), Operation::JR(JR::N8));
    let i = instructions::decode(0x30).unwrap();
    assert_eq!(i.op(), Operation::JR(JR::Cond(Cond::NC)));
    let i = instructions::decode(0x20).unwrap();
    assert_eq!(i.op(), Operation::JR(JR::Cond(Cond::NZ)));
    assert_eq!(i.branch_cycles(), 12);
    assert_eq!(instructions::decode(0x00).unwrap(), instructions::Instruction::new());
}

#[test]
fn decoder_stack_and_unknown() {
    assert_eq!(instructions::decode(0xD5).unwrap().op(), Operation::PUSH(R16::DE));
    assert_eq!(instructions::decode(0xF1).unwrap().op(), Operation::POP(R16::AF));
    assert_eq!(instructions::decode(0x80), Err(Error::Unknown));
    assert_eq!(instructions::decode(0xCB), Err(Error::Unknown));
}

#[test]
fn operand_fields() {
    let r: Result<R8, Error> = 8u8.try_into();
    assert_eq!(r, Err(Error::Decode(DecodeError::InvalidR8(8))));
    let r: Result<R16, Error> = 3u8.try_into();
    assert_eq!(r, Ok(R16::SP));
    assert_eq!(R16::r16stk(3), Ok(R16::AF));
    assert_eq!(R16::r16stk(4), Err(Error::Decode(DecodeError::InvalidR16Stk(4))));
    assert_eq!(instructions::Mem::r16mem(2), Ok(instructions::Mem::HLI));
    assert_eq!(instructions::Mem::r16mem(9), Err(Error::Decode(DecodeError::InvalidR16Mem(9))));
    let c: Result<Cond, Error> = 1u8.try_into();
    assert_eq!(c, Ok(Cond::Z));
    let c: Result<Cond, Error> = 4u8.try_into();
    assert_eq!(c, Err(Error::Decode(DecodeError::InvalidCond(4))));

    assert_eq!(StepR8::from_bits(7), Ok(StepR8::A));
    assert_eq!(StepR8::from_bits(8), Err(instr::Error::InvalidR8(8)));
    assert_eq!(StepR16::r16stk(3), Ok(StepR16::AF));
    assert_eq!(StepMem::r16mem(3), Ok(StepMem::HLD));
    assert_eq!(StepCond::from_bits(2), Ok(StepCond::NC));
    assert_eq!(StepR8::HL.as_str(), "[hl]");
}

#[test]
fn step_decoder_shapes() {
    let i = instr::decode(0x01).unwrap();
    assert_eq!(i.len, 3);
    assert_eq!(i.cycles(), 12);
    let i = instr::decode(0x20).unwrap();
    assert_eq!(i.cycles(), 8);
    assert_eq!(i.branch_cycles(), 12);
    assert!(matches!(instr::decode(0xD3), Err(instr::Error::InvalidOpCode(0xD3))));
    assert!(matches!(instr::decode(0xFD), Err(instr::Error::InvalidOpCode(0xFD))));
    let i = instr::decode_prefix(0x06).unwrap();
    assert_eq!(i.len, 2);
    assert_eq!(i.cycles(), 12);
    let i = instr::decode_prefix(0x11).unwrap();
    assert_eq!(i.cycles(), 4);
}

#[test]
fn step_instructions_from_opcodes() {
    let i = instr::Instruction::decode(0x01);
    assert_eq!(i.steps().len(), 2);
    assert!(!i.done());
    assert!(!i.eager());
    let i = instr::Instruction::decode(0x04);
    assert!(i.eager());
    assert_eq!(i.steps().len(), 1);
    let i = instr::Instruction::decode(0x08);
    assert_eq!(i.steps().len(), 4);
    assert_eq!(i.cycles(), 20);
    let mut i = instr::Instruction::decode(0xC5);
    assert_eq!(i.steps().len(), 3);
    i.complete();
    assert!(i.done());
    let mut i = instr::Instruction::new();
    i.set_n16_lo(0xCD);
    i.set_n16_hi(0xAB);
    assert_eq!(i.n16(), 0xABCD);
    assert_eq!(i.n16_lo(), 0xCD);
    assert_eq!(i.n16_hi(), 0xAB);
    i.set_n8(7);
    assert_eq!(i.n8(), 7);
    i.set_e(-3);
    assert_eq!(i.e(), -3);
}

#[test]
fn steps_change_in_place() {
    let mut i = instr::Instruction::decode(0x01);
    {
        let steps = i.steps_mut();
        assert_eq!(steps.len(), 2);
        steps[0].set_done();
    }
    assert!(i.steps()[0].is_done());
    assert!(!i.steps()[1].is_done());
    assert_eq!(i.len, 3);
}

#[test]
fn decoder_texts() {
    assert_eq!(Operation::LD(LD::R8(R8::B, R8::C)).to_string(), "ldb, c");
    assert_eq!(LD::R8Mem(R8::A, instructions::Mem::HLI).to_string(), "lda, [hl+]");
    assert_eq!(LD::MemR16(instructions::Mem::N16, R16::SP).to_string(), "ld[n16], sp");
    assert_eq!(ADD::R16(R16::HL, R16::BC).to_string(), "addhl, bc");
    assert_eq!(ADD::SP(-5).to_string(), "addsp, -5");
    assert_eq!(ADD::SP(-128).to_string(), "addsp, -128");
    assert_eq!(INC::R8(R8::A).to_string(), "inc a");
    assert_eq!(instructions::DEC::R16(R16::SP).to_string(), "inc sp");
    assert_eq!(JR::Cond(Cond::NZ).to_string(), "jr nz, n8");
    assert_eq!(JR::N8.to_string(), "jr n8");
    assert_eq!(Operation::NOP.to_string(), "nop");
    assert_eq!(Operation::STOP.to_string(), "stop");
    assert_eq!(Operation::HALT.to_string(), "");
    assert_eq!(instructions::B3(2).to_string(), "2");
    assert_eq!(instructions::T3(7).to_string(), "7");
    assert_eq!(R8::HL.as_str(), "[hl]");
    assert_eq!(instructions::Mem::SPN8.as_str(), "sp + n8");
    assert_eq!(R16::AF.as_str(), "af");
    assert_eq!(Cond::NC.as_str(), "nc");

    let mut i = instructions::Instruction::new();
    assert_eq!(i.to_string(), "nop");
    i.op = Operation::LD(LD::R8(R8::B, R8::N8));
    assert_eq!(i.to_string(), "ldb, n8");
    i.n8 = Some(42);
    assert_eq!(i.to_string(), "ldb, 42");
    i.op = Operation::LD(LD::MemR16(instructions::Mem::N16, R16::SP));
    i.n8 = Some(7);
    assert_eq!(i.to_string(), "ld[7], sp");
    i.op = Operation::JR(JR::Cond(Cond::C));
    i.n8 = Some(200);
    assert_eq!(i.to_string(), "jr c, 200");
}

#[test]
fn step_decoder_texts() {
    assert_eq!(instr::LD::R8(StepR8::B, StepR8::C).to_string(), "ld b, c");
    assert_eq!(instr::LD::HLSPN.to_string(), "ld hl, sp + n8");
    assert_eq!(instr::LD::MemR8(StepMem::HLD, StepR8::A).to_string(), "ld [hl-], a");
    assert_eq!(instr::ADD::A(StepR8::B).to_string(), "add a, b");
    assert_eq!(instr::ADD::HL(StepR16::DE).to_string(), "add hl, de");
    assert_eq!(instr::ADD::SP.to_string(), "add sp, e8");
    assert_eq!(instr::LDH::A(StepMem::C).to_string(), "ldh a, [c]");
    assert_eq!(instr::LDH::Mem(StepMem::N8).to_string(), "ldh [n8], a");
    assert_eq!(instr::INC::R16(StepR16::BC).to_string(), "inc bc");
    assert_eq!(instr::DEC::R8(StepR8::HL).to_string(), "dec [hl]");
    assert_eq!(instr::JR::Cond(StepCond::C).to_string(), "jr c, n8");
    assert_eq!(instr::JR::N8.to_string(), "jr n8");
    assert_eq!(instr::B3(3).to_string(), "3");
    assert_eq!(instr::T3(0x38).to_string(), "0x38");
    assert_eq!(instr::T3(8).to_string(), "0x08");
    assert_eq!(instr::T3(0xAB).to_string(), "0xab");
    assert_eq!(StepMem::SPN8.as_str(), "sp + n8");
}
