//! Single-instruction cases in the shape of the recorded SM83 fixtures: an
//! initial register and RAM snapshot, the bus address (and data) expected after
//! each machine cycle, and the final snapshot.

use gbc::cpu::cpu::{State, CPU};
use gbc::memory::Memory;

const PC: u16 = 0xC000;
const HL: u16 = 0xC800;

/// The register snapshot that every case starts from, with `ram` as memory.
fn base(ram: Vec<[u16; 2]>) -> State {
    State {
        pc: PC,
        sp: 0xDFF0,
        a: 0x3C,
        f: 0x00,
        b: 0xC9,
        c: 0x10,
        d: 0xCA,
        e: 0x20,
        h: 0xC8,
        l: 0x00,
        ie: Some(0),
        ime: 0,
        ram,
    }
}

/// One machine cycle: the address on the bus, and the byte the data bus reads.
type Cycle = (Option<u16>, Option<u8>);

fn run_case(name: &str, initial: &State, cycles: &[Cycle], expected: &State) {
    let mut cpu = CPU::new(Memory::new());
    cpu.load_state(initial);
    cpu.mem.load_state(&initial.ram);

    for (i, (addr, data)) in cycles.iter().enumerate() {
        cpu.tick().unwrap();
        if let Some(addr) = addr {
            assert_eq!(*addr, cpu.addr_bus.current(&cpu.mem), "{name}: address in cycle {i}");
        }
        if let Some(d) = data {
            assert_eq!(*d, cpu.data_bus.read(&cpu.mem), "{name}: data in cycle {i}");
        }
    }
    for entry in expected.ram.iter() {
        assert_eq!(cpu.mem.read(entry[0]), entry[1] as u8, "{name}: memory at {:#06x}", entry[0]);
    }
    assert_eq!(expected.a, cpu.a.0, "{name}: A");
    assert_eq!(expected.f, cpu.f.0, "{name}: F");
    assert_eq!(expected.b, cpu.b.0, "{name}: B");
    assert_eq!(expected.c, cpu.c.0, "{name}: C");
    assert_eq!(expected.d, cpu.d.0, "{name}: D");
    assert_eq!(expected.e, cpu.e.0, "{name}: E");
    assert_eq!(expected.h, cpu.h.0, "{name}: H");
    assert_eq!(expected.l, cpu.l.0, "{name}: L");
    assert_eq!(expected.pc, cpu.pc, "{name}: PC");
    assert_eq!(expected.sp, cpu.sp, "{name}: SP");
}

fn fetch(addr: u16, byte: u8) -> Cycle {
    (Some(addr), Some(byte))
}

fn at(addr: u16) -> Cycle {
    (Some(addr), None)
}

fn internal() -> Cycle {
    (None, None)
}

#[test]
fn test_nop() {
    let init = base(vec![[PC, 0x00]]);
    let fin = State { pc: PC + 1, ..init.clone() };
    run_case("00", &init, &[fetch(PC, 0x00)], &fin);
}

#[test]
fn test_stop() {
    let init = base(vec![[PC, 0x10]]);
    let fin = State { pc: PC + 1, ..init.clone() };
    run_case("10", &init, &[fetch(PC, 0x10)], &fin);
}

#[test]
fn test_halt() {
    let init = base(vec![[PC, 0x76]]);
    let fin = State { pc: PC + 1, ..init.clone() };
    run_case("76", &init, &[fetch(PC, 0x76)], &fin);
}

#[test]
fn test_ld_r16_nn() {
    for op in [0x01u8, 0x11, 0x21, 0x31] {
        let init = base(vec![[PC, op as u16], [PC + 1, 0xCD], [PC + 2, 0xAB]]);
        let mut fin = State { pc: PC + 3, ..init.clone() };
        match op {
            0x01 => {
                fin.b = 0xAB;
                fin.c = 0xCD;
            }
            0x11 => {
                fin.d = 0xAB;
                fin.e = 0xCD;
            }
            0x21 => {
                fin.h = 0xAB;
                fin.l = 0xCD;
            }
            _ => fin.sp = 0xABCD,
        }
        let cycles = [fetch(PC, op), fetch(PC + 1, 0xCD), fetch(PC + 2, 0xAB)];
        run_case(&format!("{op:02x}"), &init, &cycles, &fin);
    }
}

#[test]
fn test_ld_r16mem_a() {
    // LD (BC), A
    let init = base(vec![[PC, 0x02], [0xC910, 0x00]]);
    let fin = State { pc: PC + 1, ram: vec![[0xC910, 0x3C]], ..init.clone() };
    run_case("02", &init, &[fetch(PC, 0x02), (Some(0xC910), Some(0x3C))], &fin);
    // LD (DE), A
    let init = base(vec![[PC, 0x12], [0xCA20, 0x00]]);
    let fin = State { pc: PC + 1, ram: vec![[0xCA20, 0x3C]], ..init.clone() };
    run_case("12", &init, &[fetch(PC, 0x12), (Some(0xCA20), Some(0x3C))], &fin);
    // LD (HL+), A
    let init = base(vec![[PC, 0x22], [HL, 0x00]]);
    let fin = State { pc: PC + 1, l: 0x01, ram: vec![[HL, 0x3C]], ..init.clone() };
    run_case("22", &init, &[fetch(PC, 0x22), (Some(HL), Some(0x3C))], &fin);
    // LD (HL-), A
    let init = base(vec![[PC, 0x32], [HL, 0x00]]);
    let fin = State { pc: PC + 1, h: 0xC7, l: 0xFF, ram: vec![[HL, 0x3C]], ..init.clone() };
    run_case("32", &init, &[fetch(PC, 0x32), (Some(HL), Some(0x3C))], &fin);
}

#[test]
fn test_inc_r16() {
    let cycles = |op: u8| [fetch(PC, op), internal()];
    let init = base(vec![[PC, 0x03]]);
    run_case("03", &init, &cycles(0x03), &State { pc: PC + 1, c: 0x11, ..init.clone() });
    let init = State { d: 0x12, e: 0xFF, ..base(vec![[PC, 0x13]]) };
    run_case("13", &init, &cycles(0x13), &State { pc: PC + 1, d: 0x13, e: 0x00, ..init.clone() });
    let init = base(vec![[PC, 0x23]]);
    run_case("23", &init, &cycles(0x23), &State { pc: PC + 1, l: 0x01, ..init.clone() });
    let init = State { sp: 0xFFFF, ..base(vec![[PC, 0x33]]) };
    run_case("33", &init, &cycles(0x33), &State { pc: PC + 1, sp: 0x0000, ..init.clone() });
}

/// The 8-bit register that bits 3..5 of an opcode name, as a field of a snapshot.
fn reg_mut(s: &mut State, index: u8) -> &mut u8 {
    match index {
        0 => &mut s.b,
        1 => &mut s.c,
        2 => &mut s.d,
        3 => &mut s.e,
        4 => &mut s.h,
        5 => &mut s.l,
        _ => &mut s.a,
    }
}

#[test]
fn test_inc_r() {
    for op in [0x04u8, 0x14, 0x24, 0x34, 0x0C, 0x1C, 0x2C, 0x3C] {
        let index = (op >> 3) & 7;
        if index == 6 {
            // INC (HL): 0xFF wraps to 0 with Z and H set, C kept.
            let init = State { f: 0x50, ..base(vec![[PC, op as u16], [HL, 0xFF]]) };
            let fin = State { pc: PC + 1, f: 0xB0, ram: vec![[HL, 0x00]], ..init.clone() };
            run_case(&format!("{op:02x}"), &init, &[fetch(PC, op), at(HL), (Some(HL), Some(0x00))], &fin);
        } else {
            // 0x0F becomes 0x10: H set, N reset, Z reset, C kept.
            let mut init = State { f: 0x50, ..base(vec![[PC, op as u16]]) };
            *reg_mut(&mut init, index) = 0x0F;
            let mut fin = State { pc: PC + 1, f: 0x30, ..init.clone() };
            *reg_mut(&mut fin, index) = 0x10;
            run_case(&format!("{op:02x}"), &init, &[fetch(PC, op)], &fin);
        }
    }
}

#[test]
fn test_dec_r() {
    for op in [0x05u8, 0x15, 0x25, 0x35, 0x0D, 0x1D, 0x2D, 0x3D] {
        let index = (op >> 3) & 7;
        if index == 6 {
            // DEC (HL): 1 becomes 0 with Z and N set, no half borrow, C kept.
            let init = State { f: 0x10, ..base(vec![[PC, op as u16], [HL, 0x01]]) };
            let fin = State { pc: PC + 1, f: 0xD0, ram: vec![[HL, 0x00]], ..init.clone() };
            run_case(&format!("{op:02x}"), &init, &[fetch(PC, op), at(HL), (Some(HL), Some(0x00))], &fin);
        } else {
            // 0x10 becomes 0x0F: H set (borrow from bit 4), N set, Z reset, C kept.
            let mut init = State { f: 0x90, ..base(vec![[PC, op as u16]]) };
            *reg_mut(&mut init, index) = 0x10;
            let mut fin = State { pc: PC + 1, f: 0x70, ..init.clone() };
            *reg_mut(&mut fin, index) = 0x0F;
            run_case(&format!("{op:02x}"), &init, &[fetch(PC, op)], &fin);
        }
    }
}

#[test]
fn test_ld_r8_n() {
    for op in [0x06u8, 0x16, 0x26, 0x36, 0x0E, 0x1E, 0x2E, 0x3E] {
        let index = (op >> 3) & 7;
        let init = base(vec![[PC, op as u16], [PC + 1, 0x9A], [HL, 0x00]]);
        if index == 6 {
            let fin = State { pc: PC + 2, ram: vec![[HL, 0x9A]], ..init.clone() };
            let cycles = [fetch(PC, op), fetch(PC + 1, 0x9A), (Some(HL), Some(0x9A))];
            run_case(&format!("{op:02x}"), &init, &cycles, &fin);
        } else {
            let mut fin = State { pc: PC + 2, ..init.clone() };
            *reg_mut(&mut fin, index) = 0x9A;
            run_case(&format!("{op:02x}"), &init, &[fetch(PC, op), fetch(PC + 1, 0x9A)], &fin);
        }
    }
}

/// A one-cycle instruction on A and F: from `(a, f)` to `(a, f)`.
fn one_cycle(op: u8, from: (u8, u8), to: (u8, u8)) {
    let init = State { a: from.0, f: from.1, ..base(vec![[PC, op as u16]]) };
    let fin = State { pc: PC + 1, a: to.0, f: to.1, ..init.clone() };
    run_case(&format!("{op:02x}"), &init, &[fetch(PC, op)], &fin);
}

#[test]
fn test_rlca() {
    one_cycle(0x07, (0x85, 0xF0), (0x0B, 0x10));
    one_cycle(0x07, (0x00, 0x10), (0x00, 0x00));
}

#[test]
fn test_rla() {
    one_cycle(0x17, (0x85, 0xE0), (0x0A, 0x10));
    one_cycle(0x17, (0x05, 0x10), (0x0B, 0x00));
}

#[test]
fn test_daa() {
    one_cycle(0x27, (0x0F, 0x00), (0x15, 0x00));
    one_cycle(0x27, (0x9A, 0x00), (0x00, 0x90));
    // After a subtraction with half borrow: 0x0F - 6 = 0x09.
    one_cycle(0x27, (0x0F, 0x60), (0x09, 0x40));
}

#[test]
fn test_scf() {
    one_cycle(0x37, (0x3C, 0xE0), (0x3C, 0x90));
}

#[test]
fn test_rrca() {
    one_cycle(0x0F, (0x01, 0xF0), (0x80, 0x10));
    one_cycle(0x0F, (0x02, 0x10), (0x01, 0x00));
}

#[test]
fn test_rra() {
    one_cycle(0x1F, (0x01, 0x00), (0x00, 0x10));
    one_cycle(0x1F, (0x02, 0x10), (0x81, 0x00));
}

#[test]
fn test_cpl() {
    one_cycle(0x2F, (0x3C, 0x90), (0xC3, 0xF0));
}

#[test]
fn test_ccf() {
    one_cycle(0x3F, (0x3C, 0x70), (0x3C, 0x00));
    one_cycle(0x3F, (0x3C, 0x80), (0x3C, 0x90));
}

#[test]
fn test_ld_nnm_sp() {
    let init = base(vec![[PC, 0x08], [PC + 1, 0x00], [PC + 2, 0xC9], [0xC900, 0], [0xC901, 0]]);
    let fin = State { pc: PC + 3, ram: vec![[0xC900, 0xF0], [0xC901, 0xDF]], ..init.clone() };
    let cycles = [
        fetch(PC, 0x08),
        fetch(PC + 1, 0x00),
        fetch(PC + 2, 0xC9),
        (Some(0xC900), Some(0xF0)),
        (Some(0xC901), Some(0xDF)),
    ];
    run_case("08", &init, &cycles, &fin);
}

#[test]
fn test_jr() {
    let init = base(vec![[PC, 0x18], [PC + 1, 0x05]]);
    let fin = State { pc: PC + 2 + 5, ..init.clone() };
    run_case("18", &init, &[fetch(PC, 0x18), fetch(PC + 1, 0x05), internal()], &fin);
    let init = base(vec![[PC, 0x18], [PC + 1, 0xFB]]);
    let fin = State { pc: PC + 2 - 5, ..init.clone() };
    run_case("18", &init, &[fetch(PC, 0x18), fetch(PC + 1, 0xFB), internal()], &fin);
}

#[test]
fn test_jr_cc() {
    // (opcode, flags, taken)
    let cases = [
        (0x20u8, 0x00u8, true),
        (0x20, 0x80, false),
        (0x30, 0x10, false),
        (0x30, 0x00, true),
        (0x28, 0x80, true),
        (0x28, 0x00, false),
        (0x38, 0x00, false),
        (0x38, 0x10, true),
    ];
    for (op, f, taken) in cases {
        let init = State { f, ..base(vec![[PC, op as u16], [PC + 1, 0xF0]]) };
        if taken {
            let fin = State { pc: PC + 2 - 0x10, ..init.clone() };
            run_case(&format!("{op:02x}"), &init, &[fetch(PC, op), fetch(PC + 1, 0xF0), internal()], &fin);
        } else {
            let fin = State { pc: PC + 2, ..init.clone() };
            run_case(&format!("{op:02x}"), &init, &[fetch(PC, op), fetch(PC + 1, 0xF0)], &fin);
        }
    }
}

#[test]
fn test_add_hl_rr() {
    let cycles = |op: u8| [fetch(PC, op), internal()];
    // HL + BC with a carry out of bit 11; Z is kept.
    let init = State { f: 0xC0, h: 0x8A, l: 0x23, b: 0x06, c: 0x05, ..base(vec![[PC, 0x09]]) };
    run_case("09", &init, &cycles(0x09), &State { pc: PC + 1, f: 0xA0, h: 0x90, l: 0x28, ..init.clone() });
    // HL + DE carrying out of bit 15.
    let init = State { h: 0x80, l: 0x00, d: 0x80, e: 0x00, ..base(vec![[PC, 0x19]]) };
    run_case("19", &init, &cycles(0x19), &State { pc: PC + 1, f: 0x10, h: 0x00, l: 0x00, ..init.clone() });
    // HL + HL.
    let init = State { h: 0x0F, l: 0xFF, ..base(vec![[PC, 0x29]]) };
    run_case("29", &init, &cycles(0x29), &State { pc: PC + 1, f: 0x20, h: 0x1F, l: 0xFE, ..init.clone() });
    // HL + SP.
    let init = base(vec![[PC, 0x39]]);
    run_case("39", &init, &cycles(0x39), &State { pc: PC + 1, f: 0x30, h: 0xA7, l: 0xF0, ..init.clone() });
}

/// The register snapshot for the register-to-register and ALU cases.
fn alu_base(op: u8) -> State {
    State {
        a: 0x3A,
        f: 0x10,
        b: 0xC6,
        c: 0x05,
        d: 0x3A,
        e: 0xFF,
        h: 0xC8,
        l: 0x00,
        ..base(vec![[PC, op as u16], [HL, 0x0F]])
    }
}

/// The source operand that bits 0..2 of an opcode name, read from a snapshot.
fn source(s: &State, index: u8) -> u8 {
    match index {
        0 => s.b,
        1 => s.c,
        2 => s.d,
        3 => s.e,
        4 => s.h,
        5 => s.l,
        6 => 0x0F,
        _ => s.a,
    }
}

#[test]
fn test_ld_r_r() {
    let mut ops: Vec<u8> = (0x40..=0x7Fu8).collect();
    ops.retain(|op| *op != 0x76);
    for op in ops {
        let dst = (op >> 3) & 7;
        let src = op & 7;
        let init = alu_base(op);
        let value = source(&init, src);
        let mut fin = State { pc: PC + 1, ..init.clone() };
        if dst == 6 {
            fin.ram = vec![[HL, value as u16]];
            run_case(&format!("{op:02x}"), &init, &[fetch(PC, op), (Some(HL), Some(value))], &fin);
        } else {
            *reg_mut(&mut fin, dst) = value;
            fin.ram = vec![[HL, 0x0F]];
            let cycles: Vec<Cycle> = if src == 6 { vec![fetch(PC, op), at(HL)] } else { vec![fetch(PC, op)] };
            run_case(&format!("{op:02x}"), &init, &cycles, &fin);
        }
    }
}

/// A and F after an 8-bit ALU operation, as the processor manual gives them.
fn alu_result(kind: u8, a: u8, v: u8, f: u8) -> (u8, u8) {
    let carry = ((f >> 4) & 1) as u16;
    let (r, n, h, c) = match kind {
        0 => {
            let r = a as u16 + v as u16;
            (r as u8, false, (a & 0xF) + (v & 0xF) > 0xF, r > 0xFF)
        }
        1 => {
            let r = a as u16 + v as u16 + carry;
            (r as u8, false, ((a & 0xF) as u16 + (v & 0xF) as u16 + carry) > 0xF, r > 0xFF)
        }
        2 => (a.wrapping_sub(v), true, (a & 0xF) < (v & 0xF), a < v),
        3 => {
            let r = (a as u16).wrapping_sub(v as u16).wrapping_sub(carry);
            (r as u8, true, ((a & 0xF) as u16) < (v & 0xF) as u16 + carry, (a as u16) < v as u16 + carry)
        }
        4 => (a & v, false, true, false),
        5 => (a ^ v, false, false, false),
        _ => (a | v, false, false, false),
    };
    let flags = ((r == 0) as u8) << 7 | (n as u8) << 6 | (h as u8) << 5 | (c as u8) << 4;
    (r, flags)
}

fn run_alu(ops: std::ops::RangeInclusive<u8>, kind: u8) {
    for op in ops {
        let src = op & 7;
        for f in [0x00u8, 0x10] {
            let init = State { f, ..alu_base(op) };
            let value = source(&init, src);
            let (a, flags) = alu_result(kind, init.a, value, f);
            let fin = State { pc: PC + 1, a, f: flags, ..init.clone() };
            let cycles: Vec<Cycle> = if src == 6 { vec![fetch(PC, op), at(HL)] } else { vec![fetch(PC, op)] };
            run_case(&format!("{op:02x}"), &init, &cycles, &fin);
        }
    }
}

#[test]
fn test_add_a_r() {
    run_alu(0x80..=0x87, 0);
}

#[test]
fn test_adc_a_r() {
    run_alu(0x88..=0x8F, 1);
}

#[test]
fn test_sub_a_r() {
    run_alu(0x90..=0x97, 2);
}

#[test]
fn test_sbc_a_r() {
    run_alu(0x98..=0x9F, 3);
}

#[test]
fn test_and_a_r() {
    run_alu(0xA0..=0xA7, 4);
}

#[test]
fn test_xor_a_r() {
    run_alu(0xA8..=0xAF, 5);
}

#[test]
fn test_or_a_r() {
    run_alu(0xB0..=0xB7, 6);
}

#[test]
fn add_exact_values() {
    // 0x3A + 0xC6 = 0x100: zero, half carry and carry.
    assert_eq!(alu_result(0, 0x3A, 0xC6, 0x00), (0x00, 0xB0));
    let init = State { f: 0x00, ..alu_base(0x80) };
    let fin = State { pc: PC + 1, a: 0x00, f: 0xB0, ..init.clone() };
    run_case("80", &init, &[fetch(PC, 0x80)], &fin);
}

#[test]
fn halted_and_stopped_processors_do_not_tick() {
    let init = base(vec![[PC, 0x76], [PC + 1, 0x3C]]);
    let mut cpu = CPU::new(Memory::new());
    cpu.load_state(&init);
    cpu.mem.load_state(&init.ram);
    cpu.tick().unwrap();
    cpu.tick().unwrap();
    assert!(cpu.halt);
    let pc = cpu.pc;
    let a = cpu.a.0;
    cpu.tick().unwrap();
    cpu.tick().unwrap();
    assert_eq!(cpu.pc, pc);
    assert_eq!(cpu.a.0, a);

    let init = base(vec![[PC, 0x10], [PC + 1, 0x3C]]);
    let mut cpu = CPU::new(Memory::new());
    cpu.load_state(&init);
    cpu.mem.load_state(&init.ram);
    cpu.tick().unwrap();
    cpu.tick().unwrap();
    assert!(cpu.stop);
    let pc = cpu.pc;
    cpu.tick().unwrap();
    assert_eq!(cpu.pc, pc);
}

#[test]
fn state_round_trip() {
    let init = State { ie: Some(1), ime: 1, ram: vec![], ..base(vec![]) };
    let mut cpu = CPU::new(Memory::new());
    cpu.load_state(&init);
    assert_eq!(cpu.state(), init);
    assert!(cpu.ie);
    assert!(cpu.ime);
    let keep_ie = State { ie: None, ime: 0, ..init.clone() };
    cpu.load_state(&keep_ie);
    assert!(cpu.ie);
    assert!(!cpu.ime);
}

#[test]
fn try_tick_stops_at_unsupported_work() {
    // JP nn is fetched, but not decoded: the cycle fails after the fetch.
    let init = base(vec![[PC, 0xC3]]);
    let mut cpu = CPU::new(Memory::new());
    cpu.load_state(&init);
    cpu.mem.load_state(&init.ram);
    assert!(cpu.try_tick().is_err());
    assert_eq!(cpu.pc, PC + 1);

    // PUSH BC decodes, but its first step is not implemented here.
    let init = base(vec![[PC, 0xC5]]);
    let mut cpu = CPU::new(Memory::new());
    cpu.load_state(&init);
    cpu.mem.load_state(&init.ram);
    assert!(cpu.try_tick().is_ok());
    assert!(cpu.try_tick().is_err());

    // INC BC with BC = 0xFFFF would step past the end of the pair.
    let init = State { b: 0xFF, c: 0xFF, ..base(vec![[PC, 0x03]]) };
    let mut cpu = CPU::new(Memory::new());
    cpu.load_state(&init);
    cpu.mem.load_state(&init.ram);
    assert!(cpu.try_tick().is_ok());
    assert!(cpu.try_tick().is_err());
    assert_eq!(cpu.b.0, 0xFF);
    assert_eq!(cpu.c.0, 0xFF);

    // Supported instructions run as `tick` runs them.
    let init = base(vec![[PC, 0x3C], [PC + 1, 0x00]]);
    let mut cpu = CPU::new(Memory::new());
    cpu.load_state(&init);
    cpu.mem.load_state(&init.ram);
    assert!(cpu.try_tick().is_ok());
    assert_eq!(cpu.a.0, 0x3D);
    assert!(cpu.try_execute().is_ok());
    assert!(cpu.ir.done());
}
