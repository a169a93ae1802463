use vstd::prelude::*;

use crate::utils::bit;

verus! {

/// A 16-bit register made of a high and a low byte, with an optional label.
pub struct Register {
    label: Option<String>,
    data: u16,
}

/// Which byte of a register.
#[derive(Clone, Copy, PartialEq, Eq, Structural)]
pub enum Level {
    Low,
    High,
}

impl Register {
    /// The register's value.
    pub closed spec fn word(self) -> u16 {
        self.data
    }

    /// The register's label.
    pub closed spec fn spec_label(self) -> Option<String> {
        self.label
    }

    pub fn new() -> (r: Register)
        ensures
            r.word() == 0,
            r.spec_label() is None,
    {
        Register { data: 0, label: None }
    }

    pub fn from_word(data: u16) -> (r: Register)
        ensures
            r.word() == data,
            r.spec_label() is None,
    {
        Register { data, label: None }
    }

    pub fn set_label(&mut self, l: String)
        ensures
            final(self).word() == old(self).word(),
            final(self).spec_label() == Some(l),
    {
        self.label = Some(l)
    }

    pub fn label(&self) -> (r: Option<String>)
        ensures
            r == self.spec_label(),
    {
        match &self.label {
            Some(l) => Some(l.clone()),
            None => None,
        }
    }

    pub fn val(&self) -> (r: u16)
        ensures
            r == self.word(),
    {
        self.data
    }

    pub fn low(&self) -> (r: u8)
        ensures
            r == self.word() % 256,
    {
        let d = self.data;
        proof {
            bit::lemma_word_fields(d);
        }
        (self.data & 0x00FF) as u8
    }

    pub fn high(&self) -> (r: u8)
        ensures
            r == self.word() / 256,
    {
        let d = self.data;
        proof {
            bit::lemma_word_fields(d);
        }
        ((self.data & 0xFF00) >> 8) as u8
    }

    pub fn read_byte(&self, level: Level) -> (r: u8)
        ensures
            r == match level {
                Level::Low => self.word() % 256,
                Level::High => self.word() / 256,
            },
    {
        match level {
            Level::Low => self.low(),
            Level::High => self.high(),
        }
    }

    /// Replaces one byte of the register and keeps the other.
    pub fn write_byte(&mut self, level: Level, data: u8)
        ensures
            final(self).word() == match level {
                Level::Low => (old(self).word() / 256) * 256 + data,
                Level::High => data as int * 256 + old(self).word() % 256,
            },
            final(self).spec_label() == old(self).spec_label(),
    {
        let d = self.data;
        match level {
            Level::Low => {
                proof {
                    bit::lemma_join_bytes(data, data, d);
                }
                self.data = (self.data & 0xFF00) | data as u16
            },
            Level::High => {
                proof {
                    bit::lemma_join_bytes(data, data, d);
                }
                self.data = (self.data & 0x00FF) | ((data as u16) << 8)
            },
        }
    }

    pub fn write(&mut self, data: u16)
        ensures
            final(self).word() == data,
            final(self).spec_label() == old(self).spec_label(),
    {
        self.data = data
    }

    pub fn inc(&mut self)
        requires
            old(self).word() < 0xFFFF,
        ensures
            final(self).word() == old(self).word() + 1,
            final(self).spec_label() == old(self).spec_label(),
    {
        self.data += 1
    }

    pub fn dec(&mut self)
        requires
            old(self).word() > 0,
        ensures
            final(self).word() == old(self).word() - 1,
            final(self).spec_label() == old(self).spec_label(),
    {
        self.data -= 1
    }
}

/// Writing one byte of a register leaves the other byte as it was, and reading
/// that byte back gives what was written.
pub proof fn lemma_write_byte_read_back(before: u16, level: Level, data: u8, after: u16)
    requires
        after == match level {
            Level::Low => (before / 256) * 256 + data,
            Level::High => data as int * 256 + before % 256,
        },
    ensures
        level == Level::Low ==> after % 256 == data && after / 256 == before / 256,
        level == Level::High ==> after / 256 == data && after % 256 == before % 256,
{
}

} // verus!
