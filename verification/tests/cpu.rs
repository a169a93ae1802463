use gbc::cpu::cpu::{Register as CycleRegister, Word as CycleWord, CPU as CycleCPU};
use gbc::cpu::instr::Cond as CycleCond;
use gbc::cpu::{Flag, Register, Word, CPU};
use gbc::instructions::{Cond, Mem, Operation, LD, R16, R8};
use gbc::memory::Memory;

fn setup() -> CPU {
    CPU::new(Memory::new())
}

fn setup_cycle() -> CycleCPU {
    CycleCPU::new(Memory::new())
}

#[test]
fn fetch() {
    let mut mem = Memory::new();
    mem.write(0x00, 0xCC);
    let expected = 0xCC;

    let mut cpu = CPU::new(mem);
    let fetched = cpu.fetch();
    assert_eq!(expected, fetched);
    assert_eq!(cpu.pc, 0x1);
}

#[test]
fn cpu_fetch() {
    let mut cpu = setup_cycle();
    let val = 0xCC;
    let pc = cpu.pc;
    cpu.mem.write(pc, val);
    let fetched = cpu.fetch();
    assert_eq!(val, fetched);
    assert_eq!(cpu.pc, pc + 1);
}

#[test]
fn fetch_word() {
    let mut mem = Memory::new();
    mem.write(0x00, 0xCC);
    mem.write(0x01, 0xDD);
    let expected_word = 0xDDCC;
    let mut cpu = CPU::new(mem);
    let fetched = cpu.fetch_word();
    assert_eq!(expected_word, fetched);
    assert_eq!(cpu.pc, 0x2);
}

#[test]
fn jump_relative() {
    let mut cpu = setup();
    let byte = 0xFF;
    let expected = cpu.pc + (byte as u16);
    cpu.jr(byte);
    assert_eq!(cpu.pc, expected);
}

#[test]
fn jump_relative_word() {
    let mut cpu = setup();
    let word = 0xFF00;
    let expected = cpu.pc + word;
    cpu.jr_word(word);
    assert_eq!(cpu.pc, expected);
}

#[test]
fn af() {
    let mut cpu = setup();
    let byte = 0b0110_0110;
    let expected = ((byte as u16) << 8) | 0b1000_0000;
    cpu.set_flag(Flag::Z);
    cpu.a.write(byte);
    assert_eq!(cpu.af().val(), expected);
}

#[test]
fn flag_set() {
    let mut cpu = setup();
    cpu.set_flag(Flag::N);
    assert!(cpu.nf());
}

#[test]
fn cpu_flag_set() {
    let mut cpu = setup_cycle();
    cpu.set_flag(Flag::N);
    assert!(cpu.nf());
}

#[test]
fn flag_reset() {
    let mut cpu = setup();
    cpu.set_flag(Flag::N);
    assert!(cpu.nf());
    cpu.reset_flag(Flag::N);
    assert!(!cpu.nf());
}

#[test]
fn cpu_flag_reset() {
    let mut cpu = setup_cycle();
    cpu.set_flag(Flag::N);
    assert!(cpu.nf());
    cpu.reset_flag(Flag::N);
    assert!(!cpu.nf());
}

#[test]
fn flag() {
    let mut cpu = setup();
    assert!(!cpu.flag(Flag::Z));
    cpu.set_flag(Flag::Z);
    assert!(cpu.flag(Flag::Z));
}

#[test]
fn cpu_flag() {
    let mut cpu = setup_cycle();
    assert!(!cpu.flag(Flag::N));
    cpu.set_flag(Flag::N);
    assert!(cpu.flag(Flag::N));
}

#[test]
fn flag_set_val() {
    let mut cpu = setup();
    let f = Flag::C;
    cpu.set_flag_from_val(f, 1);
    assert!(cpu.cf());
    cpu.set_flag_from_val(f, 0);
    assert!(!cpu.cf());
}

#[test]
fn cpu_flag_set_val() {
    let f = Flag::C;
    let mut cpu = setup_cycle();
    cpu.set_flag_from_val(f, 1);
    assert!(cpu.cf());
    cpu.set_flag_from_val(f, 0);
    assert!(!cpu.cf());
}

#[test]
fn cc() {
    let mut cpu = setup();
    assert!(cpu.cc(Cond::NZ));
    assert!(cpu.cc(Cond::NC));
    cpu.set_flag(Flag::Z);
    cpu.set_flag(Flag::C);
    assert!(cpu.cc(Cond::Z));
    assert!(cpu.cc(Cond::C));
}

#[test]
fn cpu_cc() {
    let mut cpu = setup_cycle();
    assert!(cpu.cc(CycleCond::Z));
    assert!(cpu.cc(CycleCond::NC));
    cpu.reset_flag(Flag::Z);
    cpu.set_flag(Flag::C);
    assert!(cpu.cc(CycleCond::NZ));
    assert!(cpu.cc(CycleCond::C));
}

#[test]
fn register() {
    let byte = 0xFE;
    let mut r: Register = byte.into();
    assert_eq!(byte, r.val());
    assert_eq!(r.0, r.val());

    let byte = 0xF2;
    r.write(byte);
    assert_eq!(byte, r.val());
}

#[test]
fn cpu_register() {
    let byte = 0xFE;
    let mut r: CycleRegister = byte.into();
    assert_eq!(byte, r.val());
    assert_eq!(r.0, r.val());

    let byte = 0xF2;
    r.write(byte);
    assert_eq!(byte, r.val());
}

#[test]
fn word_register() {
    let low_val = 0xFE;
    let high_val = 0xFE;
    let l: Register = low_val.into();
    let h: Register = high_val.into();

    let mut expected_word = ((high_val as u16) << 8) | (low_val as u16);

    let mut w = Word::new(h, l);
    assert_eq!(expected_word, w.val());

    expected_word += 1;
    w.inc();
    assert_eq!(expected_word, w.val());

    expected_word -= 1;
    w.dec();
    assert_eq!(expected_word, w.val());

    let low_val = 0xCC;
    let high_val = 0xDD;
    expected_word = ((high_val as u16) << 8) | (low_val as u16);

    w.write(expected_word);
    assert_eq!(expected_word, w.val());
    assert_eq!(w.low.0, low_val);
    assert_eq!(w.high.0, high_val);
}

#[test]
fn cpu_word_register() {
    let low_val = 0xFE;
    let high_val = 0xFE;
    let l: CycleRegister = low_val.into();
    let h: CycleRegister = high_val.into();

    let mut expected_word = ((high_val as u16) << 8) | (low_val as u16);

    let mut w = CycleWord::new(h, l);
    assert_eq!(expected_word, w.val());

    expected_word = expected_word.wrapping_add(1);
    w.inc();
    assert_eq!(expected_word, w.val());

    expected_word -= 1;
    w.dec();
    assert_eq!(expected_word, w.val());

    let low_val = 0xCC;
    let high_val = 0xDD;
    expected_word = ((high_val as u16) << 8) | (low_val as u16);

    w.write(expected_word);
    assert_eq!(expected_word, w.val());
    assert_eq!(w.low.0, low_val);
    assert_eq!(w.high.0, high_val);
}

#[test]
fn halt() {
    let opcode = 0b0111_0110;
    let cpu = setup();
    let i = cpu.decode(opcode).unwrap();
    assert_eq!(i.op(), Operation::HALT);
}

#[test]
fn ld_r_s() {
    for r in 0b000..=0b111u8 {
        for s in 0b000..=0b111u8 {
            let opcode = 0b0100_0000 | (r << 3) | s;
            let mut cpu = setup();
            let i = cpu.decode(opcode).unwrap();
            let a: R8 = r.try_into().unwrap();
            let b: R8 = s.try_into().unwrap();

            if a == R8::HL && b == R8::HL {
                assert_eq!(i.op(), Operation::HALT);
                continue;
            } else if a == R8::HL {
                assert_eq!(i.op(), Operation::LD(LD::MemR8(Mem::HL, b)));
            } else if b == R8::HL {
                assert_eq!(i.op(), Operation::LD(LD::R8Mem(a, Mem::HL)));
            } else {
                assert_eq!(i.op(), Operation::LD(LD::R8(a, b)));
            }

            let val = 0xfe;
            cpu.ld_r8(b, val);
            cpu.execute(i);
            assert_eq!(cpu.src_r8(a), val);
        }
    }
    setup();
}

#[test]
fn push() {
    for qq in 0..=3u8 {
        // 11qq0101
        let mut cpu = setup();
        let opcode = 0b1100_0101 | (qq << 4);

        let pc = cpu.pc();
        cpu.mem.write(pc, opcode);
        let fetched = cpu.fetch();
        assert_eq!(fetched, opcode);

        let r = R16::r16stk(qq).unwrap();
        let i = cpu.decode(opcode).unwrap();
        assert_eq!(i.op(), Operation::PUSH(r));

        let val = 0xfe;
        cpu.ld_r16(r, val);
        assert_eq!(cpu.src_r16(r), val);

        let sp = cpu.sp();
        cpu.execute(i);
        assert_eq!(cpu.mem.read_word(cpu.sp()), val);
        assert_eq!(cpu.sp(), sp - 2);
    }
}

#[test]
fn pop() {
    for qq in 0..=3u8 {
        // 11qq0001
        let mut cpu = setup();
        let opcode = 0b1100_0001 | (qq << 4);

        let pc = cpu.pc();
        cpu.mem.write(pc, opcode);
        let fetched = cpu.fetch();
        assert_eq!(fetched, opcode);

        let r = R16::r16stk(qq).unwrap();
        let i = cpu.decode(opcode).unwrap();
        assert_eq!(i.op(), Operation::POP(r));

        let val = 0xDEAD;
        cpu.push(val);

        let sp = cpu.sp();
        cpu.execute(i);
        let r16 = cpu.src_r16(r);
        if r == R16::AF {
            assert_eq!(r16, val & 0xFFF0);
        } else {
            assert_eq!(r16, val);
        }
        assert_eq!(cpu.sp(), sp + 2);
    }
}

#[test]
fn push_then_pop_round_trip() {
    for (r, v) in [(R16::BC, 0x1234u16), (R16::DE, 0xBEEF), (R16::HL, 0x0001), (R16::AF, 0xABCD)] {
        let mut cpu = setup();
        let sp = cpu.sp();
        cpu.push(v);
        assert_eq!(cpu.sp(), sp - 2);
        assert_eq!(cpu.mem.read_word(cpu.sp()), v);
        cpu.pop(r);
        assert_eq!(cpu.sp(), sp);
        let expected = if r == R16::AF { v & 0xFFF0 } else { v };
        assert_eq!(cpu.src_r16(r), expected);
    }
}

#[test]
fn cpu_flags_read_back() {
    for f in [Flag::Z, Flag::N, Flag::H, Flag::C] {
        let mut cpu = setup();
        cpu.set_flag(f);
        assert!(cpu.flag(f));
        cpu.invert_flag(f);
        assert!(!cpu.flag(f));
        cpu.invert_flag(f);
        assert!(cpu.flag(f));
        for g in [Flag::Z, Flag::N, Flag::H, Flag::C] {
            if g != f {
                assert!(!cpu.flag(g));
            }
        }
    }
    let mut cpu = setup_cycle();
    cpu.clear_flags();
    assert_eq!(cpu.f.0, 0);
    cpu.set_flag(Flag::H);
    assert!(cpu.hf());
    assert!(!cpu.zf());
}

#[test]
fn cpu_new_registers() {
    let cpu = setup();
    assert_eq!(cpu.pc(), 0);
    assert_eq!(cpu.sp(), 0xFFFE);
    assert_eq!(cpu.af().val(), 0);

    let cpu = setup_cycle();
    assert_eq!(cpu.pc, 0x0100);
    assert_eq!(cpu.sp, 0xFFFE);
    assert_eq!(cpu.af().val(), 0x0080);
    assert_eq!(cpu.bc().val(), 0x0013);
    assert_eq!(cpu.de().val(), 0x00D8);
    assert_eq!(cpu.hl().val(), 0x014D);
}
