use vstd::prelude::*;

use crate::memory::Memory;
use crate::utils::bit;

verus! {

pub const DIV: usize = 0xFF04;

pub const TIMER_COUNTER: usize = 0xFF05;

pub const TIMER_MODULO: usize = 0xFF05;

pub const TIMER_CONTROL: usize = 0xFF07;

pub const IF_REGISTER: usize = 0xFF0F;

pub const LCDC: usize = 0xFF40;

pub const OBP0: usize = 0xFF48;

pub const OBP1: usize = 0xFF49;

pub const BGP: usize = 0xFF47;

/// An interrupt source, in priority order.
#[derive(Debug, Clone, Copy, PartialEq, Eq, Structural)]
pub enum IFlag {
    VBlank,
    LCD,
    Timer,
    Serial,
    Joypad,
}

/// The bit of the interrupt registers that holds a source.
pub open spec fn iflag_bit(f: IFlag) -> u8 {
    match f {
        IFlag::VBlank => 0,
        IFlag::LCD => 1,
        IFlag::Timer => 2,
        IFlag::Serial => 3,
        IFlag::Joypad => 4,
    }
}

impl IFlag {
    /// The address of the source's handler.
    pub fn addr(&self) -> (r: u16)
        ensures
            r == match self {
                IFlag::VBlank => 0x40u16,
                IFlag::LCD => 0x48u16,
                IFlag::Timer => 0x50u16,
                IFlag::Serial => 0x58u16,
                IFlag::Joypad => 0x60u16,
            },
    {
        match self {
            Self::VBlank => 0x40,
            Self::LCD => 0x48,
            Self::Timer => 0x50,
            Self::Serial => 0x58,
            Self::Joypad => 0x60,
        }
    }

    /// The bit of the interrupt registers that holds this source.
    pub fn bit(&self) -> (r: u8)
        ensures
            r == iflag_bit(*self),
    {
        match self {
            Self::VBlank => 0,
            Self::LCD => 1,
            Self::Timer => 2,
            Self::Serial => 3,
            Self::Joypad => 4,
        }
    }
}

/// Which interrupt register: enable (0xFFFF) or flags (0xFF0F).
#[derive(Debug, Clone, Copy, PartialEq, Eq, Structural)]
pub enum IRType {
    IE,
    IF,
}

/// The address of an interrupt register.
pub open spec fn ir_addr(t: IRType) -> u16 {
    match t {
        IRType::IE => 0xFFFF,
        IRType::IF => 0xFF0F,
    }
}

/// An interrupt register over a memory.
pub struct IR {
    pub ir_type: IRType,
    pub mem: Memory,
}

impl IR {
    /// The register's value.
    pub open spec fn reg(self) -> u8 {
        self.mem.byte_at(ir_addr(self.ir_type))
    }

    pub fn new(ir_type: IRType, mem: Memory) -> (r: Self)
        ensures
            r.ir_type == ir_type,
            r.mem == mem,
    {
        Self { ir_type, mem }
    }

    fn register(&self) -> (r: u8)
        ensures
            r == self.reg(),
    {
        match self.ir_type {
            IRType::IE => self.mem.ie(),
            IRType::IF => self.mem.read(0xFF0F),
        }
    }

    fn set_register(&mut self, val: u8)
        ensures
            final(self).ir_type == old(self).ir_type,
            final(self).mem == old(self).mem.stored(ir_addr(old(self).ir_type), val),
    {
        match self.ir_type {
            IRType::IE => self.mem.write(0xFFFF, val),
            IRType::IF => self.mem.write(0xFF0F, val),
        }
    }

    /// The source's bit, 0 or 1.
    pub fn flag(&self, f: IFlag) -> (r: u8)
        ensures
            r == bit::bit_of(self.reg(), iflag_bit(f)),
    {
        let r = self.register();
        bit::get(r, f.bit())
    }

    pub fn is_set(&self, f: IFlag) -> (r: bool)
        ensures
            r == (bit::bit_of(self.reg(), iflag_bit(f)) != 0),
    {
        self.flag(f) != 0
    }

    pub fn set_flag(&mut self, f: IFlag)
        ensures
            final(self).ir_type == old(self).ir_type,
            final(self).mem == old(self).mem.stored(
                ir_addr(old(self).ir_type),
                old(self).reg() | (1u8 << iflag_bit(f)),
            ),
    {
        let mut r = self.register();
        bit::set(&mut r, f.bit());
        self.set_register(r);
    }

    pub fn reset_flag(&mut self, f: IFlag)
        ensures
            final(self).ir_type == old(self).ir_type,
            final(self).mem == old(self).mem.stored(
                ir_addr(old(self).ir_type),
                old(self).reg() & !(1u8 << iflag_bit(f)),
            ),
    {
        let mut r = self.register();
        bit::reset(&mut r, f.bit());
        self.set_register(r);
    }

    /// Sets the source's bit when `val` is 0 and resets it otherwise.
    fn set_flag_from_val(&mut self, f: IFlag, val: u8)
        ensures
            final(self).ir_type == old(self).ir_type,
            final(self).mem == old(self).mem.stored(
                ir_addr(old(self).ir_type),
                if val == 0 {
                    old(self).reg() | (1u8 << iflag_bit(f))
                } else {
                    old(self).reg() & !(1u8 << iflag_bit(f))
                },
            ),
    {
        match val {
            0 => self.set_flag(f),
            _ => self.reset_flag(f),
        }
    }

    /// The highest-priority source whose bit is set.
    pub fn active(&self) -> (r: Option<IFlag>)
        ensures
            r == active_of(self.reg()),
    {
        if self.is_set(IFlag::VBlank) {
            Some(IFlag::VBlank)
        } else if self.is_set(IFlag::LCD) {
            Some(IFlag::LCD)
        } else if self.is_set(IFlag::Timer) {
            Some(IFlag::Timer)
        } else if self.is_set(IFlag::Serial) {
            Some(IFlag::Serial)
        } else if self.is_set(IFlag::Joypad) {
            Some(IFlag::Joypad)
        } else {
            None
        }
    }
}

/// The lowest set bit among bits 0 to 4 of `r`, as its source.
pub open spec fn active_of(r: u8) -> Option<IFlag> {
    if bit::bit_of(r, 0) != 0 {
        Some(IFlag::VBlank)
    } else if bit::bit_of(r, 1) != 0 {
        Some(IFlag::LCD)
    } else if bit::bit_of(r, 2) != 0 {
        Some(IFlag::Timer)
    } else if bit::bit_of(r, 3) != 0 {
        Some(IFlag::Serial)
    } else if bit::bit_of(r, 4) != 0 {
        Some(IFlag::Joypad)
    } else {
        None
    }
}

/// The pending source is the requested one with the lowest bit number: its bit
/// is set and the bits of every source of higher priority are clear; with none
/// pending, no source's bit is set.
pub proof fn lemma_active_priority(r: u8)
    ensures
        match active_of(r) {
            Some(f) => bit::bit_of(r, iflag_bit(f)) == 1 && forall|g: IFlag|
                iflag_bit(g) < iflag_bit(f) ==> #[trigger] bit::bit_of(r, iflag_bit(g)) == 0,
            None => forall|g: IFlag| #[trigger] bit::bit_of(r, iflag_bit(g)) == 0,
        },
{
    assert(bit::bit_of(r, 0) <= 1 && bit::bit_of(r, 1) <= 1 && bit::bit_of(r, 2) <= 1
        && bit::bit_of(r, 3) <= 1 && bit::bit_of(r, 4) <= 1) by (bit_vector);
}

/// The timer registers.
#[derive(Debug, Clone, Copy, PartialEq, Eq, Structural)]
pub enum Timer {
    DIV,
    TIMA,
    TMA,
    TAC,
}

impl Timer {
    /// The register's address.
    pub fn addr(&self) -> (r: u16)
        ensures
            r == match self {
                Timer::DIV => 0xFF04u16,
                Timer::TIMA => 0xFF05u16,
                Timer::TMA => 0xFF06u16,
                Timer::TAC => 0xFF07u16,
            },
    {
        match self {
            Timer::DIV => 0xFF04,
            Timer::TIMA => 0xFF05,
            Timer::TMA => 0xFF06,
            Timer::TAC => 0xFF07,
        }
    }
}

/// The divider register: counts up at 16384 Hz while enabled. Times are in
/// nanoseconds on a clock of the caller's choosing.
pub struct DivRegister {
    pub mem: Memory,
    pub last_inc: u128,
    pub disabled: bool,
}

impl DivRegister {
    pub const FREQ: u128 = 16_384;

    /// The period of the divider in nanoseconds.
    pub const PRD_NS: u128 = 61_035;

    pub fn new(mem: Memory, start: u128) -> (r: Self)
        ensures
            r.mem == mem,
            r.last_inc == start,
            !r.disabled,
    {
        Self { mem, last_inc: start, disabled: false }
    }

    pub fn enable(&mut self)
        ensures
            *final(self) == (DivRegister { disabled: false, ..*old(self) }),
    {
        self.disabled = false;
    }

    pub fn disable(&mut self)
        ensures
            *final(self) == (DivRegister { disabled: true, ..*old(self) }),
    {
        self.disabled = true;
    }

    /// Adds to DIV the periods elapsed from the last increment to `t` (counted
    /// modulo 256); `t` must not be before the last increment.
    pub fn advance_to(&mut self, t: u128)
        requires
            old(self).disabled || t >= old(self).last_inc,
        ensures
            final(self).last_inc == old(self).last_inc,
            final(self).disabled == old(self).disabled,
            final(self).mem == if old(self).disabled {
                old(self).mem
            } else {
                old(self).mem.stored(
                    DIV as u16,
                    ((old(self).mem.byte_at(DIV as u16) + (t - old(self).last_inc) / 61_035)
                        % 256) as u8,
                )
            },
    {
        if !self.disabled {
            let since_last = t - self.last_inc;
            let periods = since_last / Self::PRD_NS;
            let ticks = (periods % 256) as u8;
            let val = self.mem.read(DIV as u16);
            self.mem.write(DIV as u16, val.wrapping_add(ticks));
        }
    }
}

/// The timer control register (TAC) over a memory.
pub struct TimerControl(pub Memory);

/// The value of TAC.
pub open spec fn tac(m: Memory) -> u8 {
    m.byte_at(0xFF07)
}

impl TimerControl {
    pub const ADDR: u16 = 0xFF07;

    pub const ENABLE_BIT: u8 = 2;

    pub const CLOCK_SELECT_MASK: u8 = 0b11;

    fn val(&self) -> (r: u8)
        ensures
            r == tac(self.0),
    {
        self.0.read(Self::ADDR)
    }

    fn set(&mut self, val: u8)
        ensures
            final(self).0 == old(self).0.stored(0xFF07, val),
    {
        self.0.write(Self::ADDR, val);
    }

    pub fn enable(&mut self)
        ensures
            final(self).0 == old(self).0.stored(0xFF07, tac(old(self).0) | (1u8 << 2u8)),
    {
        let mut val = self.val();
        bit::set(&mut val, Self::ENABLE_BIT);
        self.set(val);
    }

    pub fn disable(&mut self)
        ensures
            final(self).0 == old(self).0.stored(0xFF07, tac(old(self).0) & !(1u8 << 2u8)),
    {
        let mut val = self.val();
        bit::reset(&mut val, Self::ENABLE_BIT);
        self.set(val);
    }

    pub fn is_enabled(&mut self) -> (r: bool)
        ensures
            r == (bit::bit_of(tac(old(self).0), 2) == 1),
            final(self).0 == old(self).0,
    {
        bit::is_set(self.val(), Self::ENABLE_BIT)
    }

    /// The clock selected by the low two bits of TAC.
    pub fn clk(&self) -> (r: ClockSelect)
        ensures
            r == clock_of(tac(self.0) % 4),
    {
        let v = self.val() & Self::CLOCK_SELECT_MASK;
        assert(v == tac(self.0) % 4) by {
            bit::lemma_byte_fields(tac(self.0));
        }
        ClockSelect::from_bits(v)
    }

    /// Writes a clock selection into the low two bits of TAC: the selection's
    /// frequency taken modulo 256, which is 0 for every clock.
    pub fn clk_select(&mut self, cs: ClockSelect)
        ensures
            final(self).0 == old(self).0.stored(0xFF07, tac(old(self).0) & !3u8),
    {
        proof {
            assert((tac(self.0) & !3u8) | 0u8 == tac(self.0) & !3u8) by (bit_vector);
        }
        let low = (cs.freq() % 256) as u8;
        let val = (self.val() & !Self::CLOCK_SELECT_MASK) | low;
        self.set(val);
    }
}

/// The timer clocks, each with the frequency it stands for.
#[derive(Debug, Clone, Copy, PartialEq, Eq, Structural)]
pub enum ClockSelect {
    Hyper,
    Slow,
    Medium,
    Fast,
}

/// The clock for a two-bit selection.
pub open spec fn clock_of(v: u8) -> ClockSelect {
    match v {
        0 => ClockSelect::Hyper,
        1 => ClockSelect::Slow,
        2 => ClockSelect::Medium,
        _ => ClockSelect::Fast,
    }
}

impl ClockSelect {
    /// The clock for a two-bit selection.
    pub fn from_bits(value: u8) -> (r: ClockSelect)
        requires
            value < 4,
        ensures
            r == clock_of(value),
    {
        match value {
            0 => ClockSelect::Hyper,
            1 => ClockSelect::Slow,
            2 => ClockSelect::Medium,
            _ => ClockSelect::Fast,
        }
    }

    /// The number the clock stands for.
    pub fn freq(&self) -> (r: u32)
        ensures
            r == match self {
                ClockSelect::Hyper => 256_000_000u32,
                ClockSelect::Slow => 4_000_000u32,
                ClockSelect::Medium => 16_000_000u32,
                ClockSelect::Fast => 64_000_000u32,
            },
    {
        match self {
            ClockSelect::Hyper => 256_000_000,
            ClockSelect::Slow => 4_000_000,
            ClockSelect::Medium => 16_000_000,
            ClockSelect::Fast => 64_000_000,
        }
    }
}

} // verus!
