//! Memory-mapped devices: the interface the emulator drives them through,
//! and the processor-status register, the line clock, a fake clock, the
//! teleprinter and the teletype.
use vstd::prelude::*;
use std::collections::VecDeque;
use crate::emulator::emulator_state::{EmuError, EmulatorState, Machine, Status};

verus! {

/// A request for an interrupt at a priority (0 to 7) through a vector.
#[derive(Debug, Clone, Copy, PartialEq, Eq, Structural)]
pub struct Interrupt {
    pub prio: u8,
    pub vector: u16,
}

/// What a device may do to the machine state it is handed: only the status
/// word may change.
pub open spec fn device_frame(pre: EmulatorState, post: EmulatorState) -> bool {
    &&& post.wf()
    &&& post.view().regs == pre.view().regs
    &&& post.view().mem == pre.view().mem
    &&& post.spec_num_ins() == pre.spec_num_ins()
}

/// A device on the I/O page. It is ticked once per instruction for each
/// address it answers at, may request an interrupt, and is read and written
/// at its addresses.
pub trait MMIOHandler {
    fn reset(&mut self, emu: &mut EmulatorState)
        requires
            old(emu).wf(),
        ensures
            device_frame(*old(emu), *final(emu)),
    ;

    /// Lets time pass; returns the interrupt the device requests, if any.
    fn tick(&mut self, emu: &mut EmulatorState) -> (r: Result<Option<Interrupt>, EmuError>)
        requires
            old(emu).wf(),
        ensures
            device_frame(*old(emu), *final(emu)),
    ;

    /// Tells the device that its interrupt was taken.
    fn interrupt_accepted(&mut self) -> Result<(), EmuError>;

    /// The addresses the device answers at when none are given.
    fn default_addrs(&self) -> Vec<u16>;

    fn read_byte(&mut self, emu: &mut EmulatorState, addr: u16) -> (r: Result<u8, EmuError>)
        requires
            old(emu).wf(),
        ensures
            device_frame(*old(emu), *final(emu)),
    ;

    fn read_word(&mut self, emu: &mut EmulatorState, addr: u16) -> (r: Result<u16, EmuError>)
        requires
            old(emu).wf(),
        ensures
            device_frame(*old(emu), *final(emu)),
    ;

    fn write_byte(&mut self, emu: &mut EmulatorState, addr: u16, val: u8) -> (r: Result<
        (),
        EmuError,
    >)
        requires
            old(emu).wf(),
        ensures
            device_frame(*old(emu), *final(emu)),
    ;

    fn write_word(&mut self, emu: &mut EmulatorState, addr: u16, val: u16) -> (r: Result<
        (),
        EmuError,
    >)
        requires
            old(emu).wf(),
        ensures
            device_frame(*old(emu), *final(emu)),
    ;
}

////////////////////////////////////////////////////////////////////////////////
/// Access to the processor status word at its address on the I/O page.
#[derive(Debug, Clone, Copy, PartialEq, Eq, Structural)]
pub struct StatusAccess {}

impl StatusAccess {
    pub const ADDR: u16 = 0o177776;

    pub const ADDR_UPPER: u16 = 0o177777;

    pub fn new() -> (r: StatusAccess)
        ensures
            r == (StatusAccess {  }),
    {
        StatusAccess {  }
    }

    /// A byte read at `addr` with status word `status`: its low byte at the
    /// register's address, zero at its upper half.
    pub open spec fn read_byte_result(status: u16, addr: u16) -> Result<u8, EmuError> {
        if addr == Self::ADDR {
            Ok((status % 256) as u8)
        } else if addr == Self::ADDR_UPPER {
            Ok(0)
        } else {
            Err(EmuError::DeviceError(addr))
        }
    }

    /// A word read at `addr` with status word `status`.
    pub open spec fn read_word_result(status: u16, addr: u16) -> Result<u16, EmuError> {
        if addr == Self::ADDR {
            Ok(status)
        } else {
            Err(EmuError::DeviceError(addr))
        }
    }

    /// Writing a word: the new status word, if it changes, and the result.
    pub open spec fn write_word_spec(addr: u16, val: u16) -> (Option<u16>, Result<(), EmuError>) {
        if addr == Self::ADDR && val < 256 {
            (Some(val), Ok(()))
        } else {
            (None, Err(EmuError::DeviceError(addr)))
        }
    }

    /// Writing a byte: the new status word, if it changes, and the result.
    pub open spec fn write_byte_spec(addr: u16, val: u8) -> (Option<u16>, Result<(), EmuError>) {
        if addr == Self::ADDR {
            (Some(val as u16), Ok(()))
        } else if addr == Self::ADDR_UPPER {
            (None, Ok(()))
        } else {
            (None, Err(EmuError::DeviceError(addr)))
        }
    }
}

/// `post` is `pre` with the status word replaced by `s`, or unchanged for
/// `None`.
pub open spec fn status_set(pre: EmulatorState, s: Option<u16>, post: EmulatorState) -> bool {
    match s {
        Some(v) => {
            &&& post.view() == (Machine { status: v, ..pre.view() })
            &&& post.spec_num_ins() == pre.spec_num_ins()
            &&& post.wf() == pre.wf()
        },
        None => post == pre,
    }
}

impl MMIOHandler for StatusAccess {
    fn reset(&mut self, emu: &mut EmulatorState)
        ensures
            *final(emu) == *old(emu),
    {
    }

    fn tick(&mut self, emu: &mut EmulatorState) -> (r: Result<Option<Interrupt>, EmuError>)
        ensures
            r == Ok::<Option<Interrupt>, EmuError>(None),
            *final(emu) == *old(emu),
            *final(self) == *old(self),
    {
        Ok(None)
    }

    fn interrupt_accepted(&mut self) -> (r: Result<(), EmuError>)
        ensures
            r == Ok::<(), EmuError>(()),
            *final(self) == *old(self),
    {
        Ok(())
    }

    fn default_addrs(&self) -> (r: Vec<u16>)
        ensures
            r@ == seq![Self::ADDR],
    {
        let mut v = Vec::new();
        v.push(Self::ADDR);
        v
    }

    /// The status word, at its address only.
    fn read_word(&mut self, emu: &mut EmulatorState, addr: u16) -> (r: Result<u16, EmuError>)
        ensures
            *final(emu) == *old(emu),
            r == Self::read_word_result(old(emu).view().status, addr),
    {
        if addr != Self::ADDR {
            return Err(EmuError::DeviceError(addr));
        }
        Ok(emu.get_status().to_raw())
    }

    /// The low byte of the status word; its high byte reads as zero.
    fn read_byte(&mut self, emu: &mut EmulatorState, addr: u16) -> (r: Result<u8, EmuError>)
        ensures
            *final(emu) == *old(emu),
            r == Self::read_byte_result(old(emu).view().status, addr),
    {
        if addr == Self::ADDR {
            Ok((emu.get_status().to_raw() % 256) as u8)
        } else if addr == Self::ADDR_UPPER {
            Ok(0)
        } else {
            Err(EmuError::DeviceError(addr))
        }
    }

    /// Replaces the status word; its high byte must be zero.
    fn write_word(&mut self, emu: &mut EmulatorState, addr: u16, val: u16) -> (r: Result<
        (),
        EmuError,
    >)
        ensures
            r == Self::write_word_spec(addr, val).1,
            status_set(*old(emu), Self::write_word_spec(addr, val).0, *final(emu)),
    {
        if addr != Self::ADDR || val >= 256 {
            return Err(EmuError::DeviceError(addr));
        }
        emu.set_status(Status::from_raw(val));
        Ok(())
    }

    /// Writing the low byte replaces the status word; writes to the high
    /// byte are ignored.
    fn write_byte(&mut self, emu: &mut EmulatorState, addr: u16, val: u8) -> (r: Result<
        (),
        EmuError,
    >)
        ensures
            r == Self::write_byte_spec(addr, val).1,
            status_set(*old(emu), Self::write_byte_spec(addr, val).0, *final(emu)),
    {
        if addr == Self::ADDR {
            self.write_word(emu, addr, val as u16)
        } else if addr == Self::ADDR_UPPER {
            Ok(())
        } else {
            Err(EmuError::DeviceError(addr))
        }
    }
}

////////////////////////////////////////////////////////////////////////////////
/// The KW11-L line clock: sets its clock bit every `DELAY_TICKS` ticks and,
/// when enabled, interrupts while the bit is set. Reading the status clears
/// the bit.
#[derive(Debug, Clone, Copy, PartialEq, Eq, Structural)]
pub struct Clock {
    pub interrupt_enable: bool,
    pub clock: bool,
    pub ticks_until_ready: u64,
}

impl Clock {
    pub const LKS: u16 = 0o177546;

    pub const LKS_UPPER: u16 = 0o177547;

    pub const INT_ENB_SHIFT: u8 = 6;

    pub const INT_ENB_MASK: u8 = 0x40;

    pub const CLOCK_SHIFT: u8 = 7;

    pub const PRIO: u8 = 0o6;

    pub const VECTOR: u16 = 0o100;

    /// Every 16.6 ms, at a fixed 5 us per instruction.
    pub const DELAY_TICKS: u64 = 3320;

    pub open spec fn wf(&self) -> bool {
        1 <= self.ticks_until_ready <= Self::DELAY_TICKS
    }

    pub fn new() -> (r: Clock)
        ensures
            r.wf(),
            !r.interrupt_enable,
            !r.clock,
            r.ticks_until_ready == Self::DELAY_TICKS,
    {
        Clock { interrupt_enable: false, clock: false, ticks_until_ready: Self::DELAY_TICKS }
    }

    fn lks_write(&mut self, val: u8)
        ensures
            *final(self) == (Clock { interrupt_enable: val & Self::INT_ENB_MASK != 0, ..*old(self) }),
    {
        self.interrupt_enable = (val & Self::INT_ENB_MASK) != 0;
    }

    fn lks_read(&mut self) -> (r: u8)
        ensures
            r == (if old(self).interrupt_enable { 0x40u8 } else { 0u8 }) + (if old(self).clock {
                0x80u8
            } else {
                0u8
            }),
            *final(self) == (Clock { clock: false, ..*old(self) }),
    {
        let val = (if self.interrupt_enable { 0x40u8 } else { 0u8 }) + (if self.clock {
            0x80u8
        } else {
            0u8
        });
        self.clock = false;
        val
    }
}

impl MMIOHandler for Clock {
    fn reset(&mut self, emu: &mut EmulatorState)
        ensures
            *final(self) == Clock::new_spec(),
            *final(emu) == *old(emu),
    {
        self.interrupt_enable = false;
        self.clock = false;
        self.ticks_until_ready = Self::DELAY_TICKS;
    }

    fn tick(&mut self, emu: &mut EmulatorState) -> (r: Result<Option<Interrupt>, EmuError>)
        ensures
            *final(emu) == *old(emu),
            old(self).wf() ==> final(self).wf(),
            (*final(self), r) == old(self).tick_spec(),
    {
        if self.ticks_until_ready <= 1 {
            self.clock = true;
            self.ticks_until_ready = Self::DELAY_TICKS;
        } else {
            self.ticks_until_ready = self.ticks_until_ready - 1;
        }
        if self.clock && self.interrupt_enable {
            Ok(Some(Interrupt { prio: Self::PRIO, vector: Self::VECTOR }))
        } else {
            Ok(None)
        }
    }

    fn interrupt_accepted(&mut self) -> (r: Result<(), EmuError>)
        ensures
            r == Ok::<(), EmuError>(()),
            *final(self) == *old(self),
    {
        Ok(())
    }

    fn default_addrs(&self) -> (r: Vec<u16>)
        ensures
            r@ == seq![Self::LKS],
    {
        let mut v = Vec::new();
        v.push(Self::LKS);
        v
    }

    fn read_byte(&mut self, emu: &mut EmulatorState, addr: u16) -> (r: Result<u8, EmuError>)
        ensures
            *final(emu) == *old(emu),
            (*final(self), r) == old(self).read_byte_spec(addr),
    {
        if addr == Self::LKS {
            Ok(self.lks_read())
        } else if addr == Self::LKS_UPPER {
            Ok(0)
        } else {
            Err(EmuError::DeviceError(addr))
        }
    }

    fn read_word(&mut self, emu: &mut EmulatorState, addr: u16) -> (r: Result<u16, EmuError>)
        ensures
            *final(emu) == *old(emu),
            (*final(self), r) == old(self).read_word_spec(addr),
    {
        match self.read_byte(emu, addr) {
            Ok(b) => Ok(b as u16),
            Err(e) => Err(e),
        }
    }

    fn write_byte(&mut self, emu: &mut EmulatorState, addr: u16, val: u8) -> (r: Result<
        (),
        EmuError,
    >)
        ensures
            *final(emu) == *old(emu),
            (*final(self), r) == old(self).write_byte_spec(addr, val),
    {
        if addr == Self::LKS {
            self.lks_write(val);
            Ok(())
        } else if addr == Self::LKS_UPPER {
            Ok(())
        } else {
            Err(EmuError::DeviceError(addr))
        }
    }

    fn write_word(&mut self, emu: &mut EmulatorState, addr: u16, val: u16) -> (r: Result<
        (),
        EmuError,
    >)
        ensures
            *final(emu) == *old(emu),
            (*final(self), r) == old(self).write_byte_spec(addr, (val % 256) as u8),
    {
        self.write_byte(emu, addr, (val % 256) as u8)
    }
}

impl Clock {
    pub open spec fn new_spec() -> Clock {
        Clock { interrupt_enable: false, clock: false, ticks_until_ready: Self::DELAY_TICKS }
    }

    /// The status register: interrupt enable (bit 6) and clock (bit 7).
    pub open spec fn lks_value(self) -> u8 {
        ((if self.interrupt_enable { 0x40u8 } else { 0u8 }) + (if self.clock {
            0x80u8
        } else {
            0u8
        })) as u8
    }

    /// A tick: the count goes down, and at its end the clock bit is set and
    /// the count starts again; an interrupt is requested while the bit is
    /// set and interrupts are enabled.
    pub open spec fn tick_spec(self) -> (Clock, Result<Option<Interrupt>, EmuError>) {
        let c = if self.ticks_until_ready <= 1 {
            Clock { clock: true, ticks_until_ready: Self::DELAY_TICKS, ..self }
        } else {
            Clock { ticks_until_ready: (self.ticks_until_ready - 1) as u64, ..self }
        };
        (
            c,
            Ok(
                if c.clock && c.interrupt_enable {
                    Some(Interrupt { prio: Self::PRIO, vector: Self::VECTOR })
                } else {
                    None
                },
            ),
        )
    }

    /// Reading a byte: the status, which clears the clock bit; zero at the
    /// upper half.
    pub open spec fn read_byte_spec(self, addr: u16) -> (Clock, Result<u8, EmuError>) {
        if addr == Self::LKS {
            (Clock { clock: false, ..self }, Ok(self.lks_value()))
        } else if addr == Self::LKS_UPPER {
            (self, Ok(0))
        } else {
            (self, Err(EmuError::DeviceError(addr)))
        }
    }

    /// Reading a word: the byte read, widened.
    pub open spec fn read_word_spec(self, addr: u16) -> (Clock, Result<u16, EmuError>) {
        let (c, r) = self.read_byte_spec(addr);
        (
            c,
            match r {
                Ok(b) => Ok(b as u16),
                Err(e) => Err(e),
            },
        )
    }

    /// Writing a byte: the status sets the interrupt enable; the upper half
    /// ignores it.
    pub open spec fn write_byte_spec(self, addr: u16, val: u8) -> (Clock, Result<(), EmuError>) {
        if addr == Self::LKS {
            (Clock { interrupt_enable: val & Self::INT_ENB_MASK != 0, ..self }, Ok(()))
        } else if addr == Self::LKS_UPPER {
            (self, Ok(()))
        } else {
            (self, Err(EmuError::DeviceError(addr)))
        }
    }

    /// The clock after `n` ticks with no register access between them.
    pub open spec fn ticked(self, n: nat) -> Clock
        decreases n,
    {
        if n == 0 {
            self
        } else {
            self.tick_spec().0.ticked((n - 1) as nat)
        }
    }

    /// Fewer ticks than the count left only bring the count down; one more
    /// sets the clock bit and starts the count again at `DELAY_TICKS`.
    pub proof fn lemma_ticks(self, n: nat)
        requires
            self.wf(),
            n <= self.ticks_until_ready,
        ensures
            n < self.ticks_until_ready ==> self.ticked(n) == (Clock {
                ticks_until_ready: (self.ticks_until_ready - n) as u64,
                ..self
            }),
            n == self.ticks_until_ready ==> self.ticked(n) == (Clock {
                clock: true,
                ticks_until_ready: Self::DELAY_TICKS,
                ..self
            }),
        decreases n,
    {
        if n > 0 {
            let c1 = self.tick_spec().0;
            if self.ticks_until_ready > 1 {
                c1.lemma_ticks((n - 1) as nat);
            } else {
                assert(self.ticked(n) == c1.ticked(0));
            }
        }
    }

    /// The clock bit is set once every `DELAY_TICKS` ticks: a clock that
    /// has just started its count (as a new one, or one whose bit was just
    /// set) keeps its bit as it was for `DELAY_TICKS - 1` ticks and has it
    /// set at the next, with the count started again.
    pub proof fn lemma_clock_period(self)
        requires
            self.ticks_until_ready == Self::DELAY_TICKS,
        ensures
            forall|n: nat|
                n < Self::DELAY_TICKS ==> (#[trigger] self.ticked(n)).clock == self.clock
                    && self.ticked(n).ticks_until_ready == Self::DELAY_TICKS - n,
            self.ticked(Self::DELAY_TICKS as nat) == (Clock { clock: true, ..self }),
            Clock::new_spec().ticked(Self::DELAY_TICKS as nat).clock,
    {
        assert forall|n: nat| n < Self::DELAY_TICKS implies (#[trigger] self.ticked(n)).clock
            == self.clock && self.ticked(n).ticks_until_ready == Self::DELAY_TICKS - n by {
            self.lemma_ticks(n);
        }
        self.lemma_ticks(Self::DELAY_TICKS as nat);
        Clock::new_spec().lemma_ticks(Self::DELAY_TICKS as nat);
    }
}

////////////////////////////////////////////////////////////////////////////////
/// The clock bit of a [`FakeClock`], set by whoever drives it.
#[derive(Debug, Clone, Copy, PartialEq, Eq, Structural)]
pub struct FakeClockStriker {
    pub clock: bool,
}

impl FakeClockStriker {
    /// Sets the clock bit.
    pub fn strike(&mut self)
        ensures
            final(self).clock,
    {
        self.clock = true;
    }

    /// Whether the clock bit is set, that is, not yet read since the last
    /// strike.
    pub fn was_read(&self) -> (r: bool)
        ensures
            r == self.clock,
    {
        self.clock
    }

    fn swap_clock(&mut self, new_val: bool) -> (r: bool)
        ensures
            r == old(self).clock,
            final(self).clock == new_val,
    {
        let old = self.clock;
        self.clock = new_val;
        old
    }
}

/// A line clock whose ticks are struck by hand instead of counted.
#[derive(Debug, Clone, Copy, PartialEq, Eq, Structural)]
pub struct FakeClock {
    pub interrupt_enable: bool,
    pub striker: FakeClockStriker,
}

impl FakeClock {
    pub const LKS: u16 = 0o177546;

    pub const LKS_UPPER: u16 = 0o177547;

    pub const INT_ENB_SHIFT: u8 = 6;

    pub fn new() -> (r: FakeClock)
        ensures
            !r.interrupt_enable,
            !r.striker.clock,
    {
        FakeClock { interrupt_enable: false, striker: FakeClockStriker { clock: false } }
    }

    /// The striker that sets this clock's bit.
    pub fn get_striker(&mut self) -> (r: &mut FakeClockStriker)
        ensures
            *r == old(self).striker,
            final(self).striker == *final(r),
            final(self).interrupt_enable == old(self).interrupt_enable,
    {
        &mut self.striker
    }

    /// The status register: interrupt enable (bit 6) and clock (bit 7).
    pub open spec fn lks_value(self) -> u8 {
        ((if self.interrupt_enable { 0x40u8 } else { 0u8 }) + (if self.striker.clock {
            0x80u8
        } else {
            0u8
        })) as u8
    }

    /// Reading a byte: the status, which clears the clock bit; zero at the
    /// upper half.
    pub open spec fn read_byte_spec(self, addr: u16) -> (FakeClock, Result<u8, EmuError>) {
        if addr == Self::LKS {
            (
                FakeClock { striker: FakeClockStriker { clock: false }, ..self },
                Ok(self.lks_value()),
            )
        } else if addr == Self::LKS_UPPER {
            (self, Ok(0))
        } else {
            (self, Err(EmuError::DeviceError(addr)))
        }
    }

    /// Reading a word: the byte read, widened.
    pub open spec fn read_word_spec(self, addr: u16) -> (FakeClock, Result<u16, EmuError>) {
        let (c, r) = self.read_byte_spec(addr);
        (
            c,
            match r {
                Ok(b) => Ok(b as u16),
                Err(e) => Err(e),
            },
        )
    }

    /// Writing a byte: the status sets the interrupt enable; the upper half
    /// ignores it.
    pub open spec fn write_byte_spec(self, addr: u16, val: u8) -> (FakeClock, Result<(), EmuError>) {
        if addr == Self::LKS {
            (FakeClock { interrupt_enable: val & Clock::INT_ENB_MASK != 0, ..self }, Ok(()))
        } else if addr == Self::LKS_UPPER {
            (self, Ok(()))
        } else {
            (self, Err(EmuError::DeviceError(addr)))
        }
    }

    fn lks_read(&mut self) -> (r: u8)
        ensures
            r == (if old(self).interrupt_enable { 0x40u8 } else { 0u8 }) + (if old(self).striker.clock {
                0x80u8
            } else {
                0u8
            }),
            !final(self).striker.clock,
            final(self).interrupt_enable == old(self).interrupt_enable,
    {
        let struck = self.striker.swap_clock(false);
        (if self.interrupt_enable { 0x40u8 } else { 0u8 }) + (if struck { 0x80u8 } else { 0u8 })
    }
}

impl MMIOHandler for FakeClock {
    fn reset(&mut self, emu: &mut EmulatorState)
        ensures
            !final(self).interrupt_enable,
            final(self).striker == old(self).striker,
            *final(emu) == *old(emu),
    {
        self.interrupt_enable = false;
    }

    fn tick(&mut self, emu: &mut EmulatorState) -> (r: Result<Option<Interrupt>, EmuError>)
        ensures
            *final(emu) == *old(emu),
            *final(self) == *old(self),
            r == Ok::<Option<Interrupt>, EmuError>(if old(self).striker.clock && old(self).interrupt_enable {
                Some(Interrupt { prio: Clock::PRIO, vector: Clock::VECTOR })
            } else {
                None
            }),
    {
        if self.striker.was_read() && self.interrupt_enable {
            Ok(Some(Interrupt { prio: Clock::PRIO, vector: Clock::VECTOR }))
        } else {
            Ok(None)
        }
    }

    fn interrupt_accepted(&mut self) -> (r: Result<(), EmuError>)
        ensures
            r == Ok::<(), EmuError>(()),
            *final(self) == *old(self),
    {
        Ok(())
    }

    fn default_addrs(&self) -> (r: Vec<u16>)
        ensures
            r@ == seq![Self::LKS],
    {
        let mut v = Vec::new();
        v.push(Self::LKS);
        v
    }

    fn read_byte(&mut self, emu: &mut EmulatorState, addr: u16) -> (r: Result<u8, EmuError>)
        ensures
            *final(emu) == *old(emu),
            (*final(self), r) == old(self).read_byte_spec(addr),
    {
        if addr == Self::LKS {
            Ok(self.lks_read())
        } else if addr == Self::LKS_UPPER {
            Ok(0)
        } else {
            Err(EmuError::DeviceError(addr))
        }
    }

    fn read_word(&mut self, emu: &mut EmulatorState, addr: u16) -> (r: Result<u16, EmuError>)
        ensures
            *final(emu) == *old(emu),
            (*final(self), r) == old(self).read_word_spec(addr),
    {
        match self.read_byte(emu, addr) {
            Ok(b) => Ok(b as u16),
            Err(e) => Err(e),
        }
    }

    fn write_byte(&mut self, emu: &mut EmulatorState, addr: u16, val: u8) -> (r: Result<
        (),
        EmuError,
    >)
        ensures
            *final(emu) == *old(emu),
            (*final(self), r) == old(self).write_byte_spec(addr, val),
    {
        if addr == Self::LKS {
            self.interrupt_enable = (val & Clock::INT_ENB_MASK) != 0;
            Ok(())
        } else if addr == Self::LKS_UPPER {
            Ok(())
        } else {
            Err(EmuError::DeviceError(addr))
        }
    }

    fn write_word(&mut self, emu: &mut EmulatorState, addr: u16, val: u16) -> (r: Result<
        (),
        EmuError,
    >)
        ensures
            *final(emu) == *old(emu),
            (*final(self), r) == old(self).write_byte_spec(addr, (val % 256) as u8),
    {
        self.write_byte(emu, addr, (val % 256) as u8)
    }
}


////////////////////////////////////////////////////////////////////////////////
/// Where a teleprinter's characters go.
pub trait Printer {
    fn write(&mut self, val: u8);
}

/// A printer that keeps the characters, in order, for whoever reads them.
#[derive(Debug)]
pub struct PipePrinter {
    pub buf: VecDeque<u8>,
}

impl PipePrinter {
    pub fn new() -> (r: PipePrinter)
        ensures
            r.buf@ == Seq::<u8>::empty(),
    {
        PipePrinter { buf: VecDeque::new() }
    }

    /// Takes all characters printed so far.
    pub fn take(&mut self) -> (r: VecDeque<u8>)
        ensures
            r@ == old(self).buf@,
            final(self).buf@ == Seq::<u8>::empty(),
    {
        let mut out = VecDeque::new();
        std::mem::swap(&mut out, &mut self.buf);
        out
    }

    pub fn is_empty(&self) -> (r: bool)
        ensures
            r == (self.buf@.len() == 0),
    {
        self.buf.len() == 0
    }

    /// Takes the first character printed and not yet taken.
    pub fn pop_front(&mut self) -> (r: Option<u8>)
        ensures
            old(self).buf@.len() > 0 ==> r == Some(old(self).buf@[0])
                && final(self).buf@ == old(self).buf@.drop_first(),
            old(self).buf@.len() == 0 ==> r is None && final(self).buf@ == old(self).buf@,
    {
        self.buf.pop_front()
    }

    /// The characters printed and not yet taken, in order.
    pub fn contents(&self) -> (r: Vec<u8>)
        ensures
            r@ == self.buf@,
    {
        let mut out: Vec<u8> = Vec::new();
        let mut i: usize = 0;
        while i < self.buf.len()
            invariant
                i <= self.buf@.len(),
                out@ == self.buf@.subrange(0, i as int),
            decreases self.buf@.len() - i,
        {
            out.push(self.buf[i]);
            i = i + 1;
            assert(out@ =~= self.buf@.subrange(0, i as int));
        }
        assert(self.buf@.subrange(0, self.buf@.len() as int) =~= self.buf@);
        out
    }
}

impl Printer for PipePrinter {
    fn write(&mut self, val: u8)
        ensures
            final(self).buf@ == old(self).buf@.push(val),
    {
        self.buf.push_back(val);
    }
}

/// The teleprinter of the console: a status register (ready, interrupt
/// enable, maintenance) and a buffer register. A character written while
/// ready is printed and the printer is busy for `DELAY_TICKS` ticks.
#[derive(Debug)]
pub struct Teleprinter {
    pub device: PipePrinter,
    pub maintenance_control: bool,
    pub interrupt_enabled: bool,
    pub interrupted: bool,
    pub ready: bool,
    pub ticks_until_ready: u64,
}

impl Teleprinter {
    /// Teleprinter status register.
    pub const TPS: u16 = 0o177564;

    pub const TPS_UPPER: u16 = 0o177565;

    /// Teleprinter buffer register.
    pub const TPB: u16 = 0o177566;

    pub const TPB_UPPER: u16 = 0o177567;

    pub const MAINT_SHIFT: u8 = 2;

    pub const MAINT_MASK: u8 = 0x4;

    pub const INT_ENB_SHIFT: u8 = 6;

    pub const INT_ENB_MASK: u8 = 0x40;

    pub const READY_SHIFT: u8 = 7;

    pub const PRIO: u8 = 0o4;

    pub const VECTOR: u16 = 0o64;

    /// A character takes 100 ms, at a fixed 5 us per instruction.
    pub const DELAY_TICKS: u64 = 20000;

    /// Idle means ready.
    pub open spec fn wf(&self) -> bool {
        &&& self.ticks_until_ready <= Self::DELAY_TICKS
        &&& self.ticks_until_ready == 0 ==> self.ready
    }

    /// A teleprinter whose characters the application prints.
    pub fn new_to_stdout() -> (r: Teleprinter)
        ensures
            r.wf(),
    {
        Self::new(PipePrinter::new())
    }

    pub fn new(printer: PipePrinter) -> (r: Teleprinter)
        ensures
            r.wf(),
            r.device == printer,
            r.ready,
            !r.interrupt_enabled,
            !r.maintenance_control,
            !r.interrupted,
            r.ticks_until_ready == 0,
    {
        Teleprinter {
            device: printer,
            maintenance_control: false,
            interrupt_enabled: false,
            interrupted: false,
            ready: true,
            ticks_until_ready: 0,
        }
    }

    /// The printer the characters go to.
    pub fn printer(&self) -> (r: &PipePrinter)
        ensures
            *r == self.device,
    {
        &self.device
    }

    fn tps_write(&mut self, val: u8)
        ensures
            final(self).maintenance_control == (val & Self::MAINT_MASK != 0),
            final(self).interrupt_enabled == (val & Self::INT_ENB_MASK != 0),
            final(self).device == old(self).device,
            final(self).ready == old(self).ready,
            final(self).interrupted == old(self).interrupted,
            final(self).ticks_until_ready == old(self).ticks_until_ready,
    {
        self.maintenance_control = (val & Self::MAINT_MASK) != 0;
        self.interrupt_enabled = (val & Self::INT_ENB_MASK) != 0;
    }

    /// Prints the character if the printer is ready; otherwise it is lost.
    fn tpb_write(&mut self, val: u8)
        requires
            old(self).wf(),
        ensures
            final(self).wf(),
            old(self).ready ==> final(self).device.buf@ == old(self).device.buf@.push(val)
                && !final(self).ready && final(self).ticks_until_ready == Self::DELAY_TICKS,
            !old(self).ready ==> final(self).device == old(self).device && final(self).ready
                == old(self).ready && final(self).ticks_until_ready
                == old(self).ticks_until_ready,
            final(self).interrupt_enabled == old(self).interrupt_enabled,
            final(self).maintenance_control == old(self).maintenance_control,
            final(self).interrupted == old(self).interrupted,
    {
        if self.ready {
            self.device.write(val);
            self.ticks_until_ready = Self::DELAY_TICKS;
            self.ready = false;
        }
    }

    /// The status register: maintenance (bit 2), interrupt enable (bit 6),
    /// ready (bit 7).
    pub open spec fn tps_value(&self) -> u8 {
        ((if self.maintenance_control { 0x4u8 } else { 0u8 }) + (if self.interrupt_enabled {
            0x40u8
        } else {
            0u8
        }) + (if self.ready { 0x80u8 } else { 0u8 })) as u8
    }

    /// A tick of a well-formed teleprinter; see [`tick_printer`](Self::tick_printer).
    pub open spec fn tick_spec(self) -> (Teleprinter, Result<Option<Interrupt>, EmuError>) {
        if !self.wf() || self.maintenance_control {
            (self, Err(EmuError::DeviceError(Self::TPS)))
        } else if self.ticks_until_ready == 0 {
            (
                self,
                Ok(
                    if self.interrupt_enabled && !self.interrupted {
                        Some(Interrupt { prio: Self::PRIO, vector: Self::VECTOR })
                    } else {
                        None
                    },
                ),
            )
        } else if self.ticks_until_ready == 1 {
            (
                Teleprinter { ticks_until_ready: 0, ready: true, interrupted: false, ..self },
                Ok(
                    if self.interrupt_enabled {
                        Some(Interrupt { prio: Self::PRIO, vector: Self::VECTOR })
                    } else {
                        None
                    },
                ),
            )
        } else {
            (
                Teleprinter { ticks_until_ready: (self.ticks_until_ready - 1) as u64, ..self },
                Ok(None),
            )
        }
    }

    /// A byte read: the status, or zero at the other addresses it answers at.
    pub open spec fn read_byte_result(self, addr: u16) -> Result<u8, EmuError> {
        if addr == Self::TPS {
            Ok(self.tps_value())
        } else if addr == Self::TPS_UPPER || addr == Self::TPB || addr == Self::TPB_UPPER {
            Ok(0)
        } else {
            Err(EmuError::DeviceError(addr))
        }
    }

    /// A word read: the byte read, widened.
    pub open spec fn read_word_result(self, addr: u16) -> Result<u16, EmuError> {
        match self.read_byte_result(addr) {
            Ok(b) => Ok(b as u16),
            Err(e) => Err(e),
        }
    }

    /// Writing a byte at `addr` takes `pre` to `post` with result `r`: the
    /// status sets maintenance and interrupt enable; the buffer prints while
    /// ready (see [`tpb_write`](Self::tpb_write)); the upper halves ignore it.
    pub open spec fn write_byte_rel(
        pre: Teleprinter,
        addr: u16,
        val: u8,
        post: Teleprinter,
        r: Result<(), EmuError>,
    ) -> bool {
        if addr == Self::TPS {
            &&& r == Ok::<(), EmuError>(())
            &&& post == Teleprinter {
                maintenance_control: val & Self::MAINT_MASK != 0,
                interrupt_enabled: val & Self::INT_ENB_MASK != 0,
                ..pre
            }
        } else if addr == Self::TPB {
            if !pre.wf() {
                r == Err::<(), EmuError>(EmuError::DeviceError(Self::TPS)) && post == pre
            } else if pre.ready {
                &&& r == Ok::<(), EmuError>(())
                &&& post.device.buf@ == pre.device.buf@.push(val)
                &&& !post.ready
                &&& post.ticks_until_ready == Self::DELAY_TICKS
                &&& post.maintenance_control == pre.maintenance_control
                &&& post.interrupt_enabled == pre.interrupt_enabled
                &&& post.interrupted == pre.interrupted
            } else {
                r == Ok::<(), EmuError>(()) && post == pre
            }
        } else if addr == Self::TPS_UPPER || addr == Self::TPB_UPPER {
            r == Ok::<(), EmuError>(()) && post == pre
        } else {
            r == Err::<(), EmuError>(EmuError::DeviceError(addr)) && post == pre
        }
    }

    fn tps_read(&self) -> (r: u8)
        ensures
            r == self.tps_value(),
    {
        (if self.maintenance_control { 0x4u8 } else { 0u8 }) + (if self.interrupt_enabled {
            0x40u8
        } else {
            0u8
        }) + (if self.ready { 0x80u8 } else { 0u8 })
    }

    /// Lets a tick pass: counts down the busy time; interrupts when ready
    /// and enabled, once per character.
    pub fn tick_printer(&mut self) -> (r: Result<Option<Interrupt>, EmuError>)
        requires
            old(self).wf(),
        ensures
            final(self).wf(),
            (*final(self), r) == old(self).tick_spec(),
            old(self).maintenance_control ==> r is Err,
            !old(self).maintenance_control && old(self).ticks_until_ready == 0 ==> *final(self)
                == *old(self) && r == Ok::<Option<Interrupt>, EmuError>(
                if old(self).interrupt_enabled && !old(self).interrupted {
                    Some(Interrupt { prio: Self::PRIO, vector: Self::VECTOR })
                } else {
                    None
                },
            ),
            !old(self).maintenance_control && old(self).ticks_until_ready == 1 ==> final(self).ready
                && !final(self).interrupted && final(self).ticks_until_ready == 0 && r == Ok::<
                Option<Interrupt>,
                EmuError,
            >(
                if old(self).interrupt_enabled {
                    Some(Interrupt { prio: Self::PRIO, vector: Self::VECTOR })
                } else {
                    None
                },
            ),
            !old(self).maintenance_control && old(self).ticks_until_ready > 1 ==> final(self).ticks_until_ready
                == old(self).ticks_until_ready - 1 && r == Ok::<
                Option<Interrupt>,
                EmuError,
            >(None),
            final(self).device == old(self).device,
    {
        if self.maintenance_control {
            return Err(EmuError::DeviceError(Self::TPS));
        }
        if self.ticks_until_ready == 0 {
            if self.interrupt_enabled && !self.interrupted {
                return Ok(Some(Interrupt { prio: Self::PRIO, vector: Self::VECTOR }));
            }
            return Ok(None);
        }
        self.ticks_until_ready = self.ticks_until_ready - 1;
        if self.ticks_until_ready == 0 {
            self.ready = true;
            self.interrupted = false;
            if self.interrupt_enabled {
                return Ok(Some(Interrupt { prio: Self::PRIO, vector: Self::VECTOR }));
            }
        }
        Ok(None)
    }
}

impl MMIOHandler for Teleprinter {
    fn reset(&mut self, emu: &mut EmulatorState)
        ensures
            *final(emu) == *old(emu),
            *final(self) == *old(self),
    {
    }

    fn tick(&mut self, emu: &mut EmulatorState) -> (r: Result<Option<Interrupt>, EmuError>)
        ensures
            *final(emu) == *old(emu),
            (*final(self), r) == old(self).tick_spec(),
    {
        if self.ticks_until_ready > Self::DELAY_TICKS || (self.ticks_until_ready == 0
            && !self.ready) {
            return Err(EmuError::DeviceError(Self::TPS));
        }
        self.tick_printer()
    }

    fn interrupt_accepted(&mut self) -> (r: Result<(), EmuError>)
        ensures
            r == Ok::<(), EmuError>(()),
            *final(self) == (Teleprinter { interrupted: true, ..*old(self) }),
    {
        self.interrupted = true;
        Ok(())
    }

    fn default_addrs(&self) -> (r: Vec<u16>)
        ensures
            r@ == Seq::<u16>::empty(),
    {
        Vec::new()
    }

    fn read_byte(&mut self, emu: &mut EmulatorState, addr: u16) -> (r: Result<u8, EmuError>)
        ensures
            *final(emu) == *old(emu),
            *final(self) == *old(self),
            r == old(self).read_byte_result(addr),
    {
        if addr == Self::TPS {
            Ok(self.tps_read())
        } else if addr == Self::TPS_UPPER || addr == Self::TPB || addr == Self::TPB_UPPER {
            Ok(0)
        } else {
            Err(EmuError::DeviceError(addr))
        }
    }

    fn read_word(&mut self, emu: &mut EmulatorState, addr: u16) -> (r: Result<u16, EmuError>)
        ensures
            *final(emu) == *old(emu),
            *final(self) == *old(self),
            r == old(self).read_word_result(addr),
    {
        match self.read_byte(emu, addr) {
            Ok(b) => Ok(b as u16),
            Err(e) => Err(e),
        }
    }

    fn write_byte(&mut self, emu: &mut EmulatorState, addr: u16, val: u8) -> (r: Result<
        (),
        EmuError,
    >)
        ensures
            *final(emu) == *old(emu),
            Self::write_byte_rel(*old(self), addr, val, *final(self), r),
    {
        if addr == Self::TPS {
            self.tps_write(val);
            Ok(())
        } else if addr == Self::TPB {
            if self.ticks_until_ready > Self::DELAY_TICKS || (self.ticks_until_ready == 0
                && !self.ready) {
                return Err(EmuError::DeviceError(Self::TPS));
            }
            self.tpb_write(val);
            Ok(())
        } else if addr == Self::TPS_UPPER || addr == Self::TPB_UPPER {
            Ok(())
        } else {
            Err(EmuError::DeviceError(addr))
        }
    }

    fn write_word(&mut self, emu: &mut EmulatorState, addr: u16, val: u16) -> (r: Result<
        (),
        EmuError,
    >)
        ensures
            *final(emu) == *old(emu),
            Self::write_byte_rel(*old(self), addr, (val % 256) as u8, *final(self), r),
    {
        self.write_byte(emu, addr, (val % 256) as u8)
    }
}


////////////////////////////////////////////////////////////////////////////////
/// The terminal behind a teletype: where printed characters go and typed
/// ones come from.
pub trait Tty {
    fn handle_output(&mut self, val: u8);

    fn input_available(&self) -> bool;

    fn poll_input(&mut self) -> Option<u8>;
}

/// A terminal that queues printed characters for whoever reads them and
/// typed characters given to it.
#[derive(Debug)]
pub struct PipeTty {
    pub out_buf: VecDeque<u8>,
    pub in_buf: VecDeque<u8>,
}

impl PipeTty {
    pub fn new() -> (r: PipeTty)
        ensures
            r.out_buf@ == Seq::<u8>::empty(),
            r.in_buf@ == Seq::<u8>::empty(),
    {
        PipeTty { out_buf: VecDeque::new(), in_buf: VecDeque::new() }
    }

    /// Takes all characters printed so far.
    pub fn take_output(&mut self) -> (r: VecDeque<u8>)
        ensures
            r@ == old(self).out_buf@,
            final(self).out_buf@ == Seq::<u8>::empty(),
            final(self).in_buf == old(self).in_buf,
    {
        let mut out = VecDeque::new();
        std::mem::swap(&mut out, &mut self.out_buf);
        out
    }

    pub fn is_out_empty(&self) -> (r: bool)
        ensures
            r == (self.out_buf@.len() == 0),
    {
        self.out_buf.len() == 0
    }

    /// Takes the first printed character not yet taken.
    pub fn pop_output(&mut self) -> (r: Option<u8>)
        ensures
            old(self).out_buf@.len() > 0 ==> r == Some(old(self).out_buf@[0])
                && final(self).out_buf@ == old(self).out_buf@.drop_first(),
            old(self).out_buf@.len() == 0 ==> r is None && final(self).out_buf@ == old(self).out_buf@,
            final(self).in_buf == old(self).in_buf,
    {
        self.out_buf.pop_front()
    }

    /// Queues a typed character.
    pub fn push_input(&mut self, val: u8)
        ensures
            final(self).in_buf@ == old(self).in_buf@.push(val),
            final(self).out_buf == old(self).out_buf,
    {
        self.in_buf.push_back(val);
    }

    /// Queues typed characters, in order.
    pub fn write_input(&mut self, vals: &[u8])
        ensures
            final(self).in_buf@ == old(self).in_buf@ + vals@,
            final(self).out_buf == old(self).out_buf,
    {
        let mut i: usize = 0;
        while i < vals.len()
            invariant
                i <= vals@.len(),
                self.in_buf@ == old(self).in_buf@ + vals@.subrange(0, i as int),
                self.out_buf == old(self).out_buf,
            decreases vals@.len() - i,
        {
            self.push_input(vals[i]);
            i = i + 1;
            assert(self.in_buf@ =~= old(self).in_buf@ + vals@.subrange(0, i as int));
        }
        assert(vals@.subrange(0, vals@.len() as int) =~= vals@);
    }
}

impl Tty for PipeTty {
    fn handle_output(&mut self, val: u8)
        ensures
            final(self).out_buf@ == old(self).out_buf@.push(val),
            final(self).in_buf == old(self).in_buf,
    {
        self.out_buf.push_back(val);
    }

    fn input_available(&self) -> (r: bool)
        ensures
            r == (self.in_buf@.len() > 0),
    {
        self.in_buf.len() > 0
    }

    fn poll_input(&mut self) -> (r: Option<u8>)
        ensures
            old(self).in_buf@.len() > 0 ==> r == Some(old(self).in_buf@[0])
                && final(self).in_buf@ == old(self).in_buf@.drop_first(),
            old(self).in_buf@.len() == 0 ==> r is None && final(self).in_buf@ == old(self).in_buf@,
            final(self).out_buf == old(self).out_buf,
    {
        self.in_buf.pop_front()
    }
}

/// The console teletype: the teleprinter registers and the keyboard
/// registers (status with done and interrupt enable, and buffer).
#[derive(Debug)]
pub struct Teletype {
    pub device: PipeTty,
    pub tps_maintenance_control: bool,
    pub tps_interrupt_enabled: bool,
    pub printer_interrupted: bool,
    pub printer_interrupt_accepted: bool,
    pub tps_ready: bool,
    pub tps_ticks_until_ready: u64,
    pub tks_interrupt_enabled: bool,
    pub keyboard_interrupted: bool,
}

impl Teletype {
    pub const TPS: u16 = 0o177564;

    pub const TPS_UPPER: u16 = 0o177565;

    pub const TPB: u16 = 0o177566;

    pub const TPB_UPPER: u16 = 0o177567;

    pub const TPS_MAINT_MASK: u8 = 0x4;

    pub const TPS_INT_ENB_SHIFT: u8 = 6;

    pub const TPS_INT_ENB_MASK: u8 = 0x40;

    pub const TPS_READY_SHIFT: u8 = 7;

    pub const PRINT_PRIO: u8 = 0o4;

    pub const PRINT_VECTOR: u16 = 0o64;

    /// Keyboard status register.
    pub const TKS: u16 = 0o177560;

    pub const TKS_UPPER: u16 = 0o177561;

    /// Keyboard buffer register.
    pub const TKB: u16 = 0o177562;

    /// The upper half of the keyboard buffer, as this device decodes it:
    /// the same address as the keyboard status's upper half.
    pub const TKB_UPPER: u16 = 0o177561;

    pub const TKS_INT_ENB_MASK: u16 = 0x40;

    pub const TKS_DONE_SHIFT: u16 = 7;

    pub const KEY_PRIO: u8 = 0o4;

    pub const KEY_VECTOR: u16 = 0o60;

    pub const PRINT_DELAY_TICKS: u64 = 20000;

    /// A teletype whose terminal the application serves.
    pub fn new_to_stdout() -> (r: Teletype)
        ensures
            r.device.out_buf@ == Seq::<u8>::empty(),
            r.device.in_buf@ == Seq::<u8>::empty(),
            r.tps_ready,
            r.tps_ticks_until_ready == 0,
            !r.tps_interrupt_enabled && !r.tks_interrupt_enabled,
            !r.printer_interrupted && !r.keyboard_interrupted && !r.printer_interrupt_accepted,
            !r.tps_maintenance_control,
    {
        Self::new(PipeTty::new())
    }

    pub fn new(device: PipeTty) -> (r: Teletype)
        ensures
            r.device == device,
            r.tps_ready,
            r.tps_ticks_until_ready == 0,
            !r.tps_interrupt_enabled && !r.tks_interrupt_enabled,
            !r.printer_interrupted && !r.keyboard_interrupted && !r.printer_interrupt_accepted,
            !r.tps_maintenance_control,
    {
        Teletype {
            device,
            tps_maintenance_control: false,
            tps_interrupt_enabled: false,
            printer_interrupted: false,
            printer_interrupt_accepted: false,
            tps_ready: true,
            tps_ticks_until_ready: 0,
            tks_interrupt_enabled: false,
            keyboard_interrupted: false,
        }
    }

    /// The terminal.
    pub fn tty(&self) -> (r: &PipeTty)
        ensures
            *r == self.device,
    {
        &self.device
    }

    /// The terminal, to take printed characters from or give typed ones to.
    pub fn tty_mut(&mut self) -> (r: &mut PipeTty)
        ensures
            *r == old(self).device,
            final(self).device == *final(r),
            final(self).tps_ready == old(self).tps_ready,
            final(self).tps_ticks_until_ready == old(self).tps_ticks_until_ready,
    {
        &mut self.device
    }

    /// The registers, all but the terminal, are the same.
    pub open spec fn same_regs(a: Teletype, b: Teletype) -> bool {
        &&& a.tps_maintenance_control == b.tps_maintenance_control
        &&& a.tps_interrupt_enabled == b.tps_interrupt_enabled
        &&& a.printer_interrupted == b.printer_interrupted
        &&& a.printer_interrupt_accepted == b.printer_interrupt_accepted
        &&& a.tps_ready == b.tps_ready
        &&& a.tps_ticks_until_ready == b.tps_ticks_until_ready
        &&& a.tks_interrupt_enabled == b.tks_interrupt_enabled
        &&& a.keyboard_interrupted == b.keyboard_interrupted
    }

    /// A tick: the printer's busy time counts down (and its accepted
    /// interrupt is forgotten as it ends); then the keyboard's interrupt, if
    /// a character waits and it is enabled, or else the printer's, if ready,
    /// enabled and not yet accepted.
    pub open spec fn tick_spec(self) -> (Teletype, Result<Option<Interrupt>, EmuError>) {
        if self.tps_maintenance_control {
            (self, Err(EmuError::DeviceError(Self::TPS)))
        } else {
            let pia = if self.tps_ticks_until_ready == 1 {
                false
            } else {
                self.printer_interrupt_accepted
            };
            let t = if self.tps_ticks_until_ready > 0 {
                (self.tps_ticks_until_ready - 1) as u64
            } else {
                0u64
            };
            let ready = self.tps_ready || t == 0;
            let base = Teletype {
                printer_interrupt_accepted: pia,
                tps_ticks_until_ready: t,
                tps_ready: ready,
                ..self
            };
            if self.device.in_buf@.len() > 0 && self.tks_interrupt_enabled {
                (
                    Teletype { keyboard_interrupted: true, ..base },
                    Ok(Some(Interrupt { prio: Self::PRINT_PRIO, vector: Self::KEY_VECTOR })),
                )
            } else if ready && self.tps_interrupt_enabled && !pia {
                (
                    Teletype { printer_interrupted: true, ..base },
                    Ok(Some(Interrupt { prio: Self::PRINT_PRIO, vector: Self::PRINT_VECTOR })),
                )
            } else {
                (base, Ok(None))
            }
        }
    }

    /// Acknowledging an interrupt: the keyboard's first, then the printer's.
    pub open spec fn accept_spec(self) -> (Teletype, Result<(), EmuError>) {
        if self.keyboard_interrupted {
            (Teletype { keyboard_interrupted: false, ..self }, Ok(()))
        } else if self.printer_interrupted {
            (
                Teletype { printer_interrupted: false, printer_interrupt_accepted: true, ..self },
                Ok(()),
            )
        } else {
            (self, Err(EmuError::DeviceError(Self::TKS)))
        }
    }

    /// A byte read: the printer status, the keyboard status's halves, the
    /// next typed character (zero when none waits), or zero at the other
    /// addresses it answers at.
    pub open spec fn read_byte_result(self, addr: u16) -> Result<u8, EmuError> {
        if addr == Self::TPS {
            Ok(self.tps_value())
        } else if addr == Self::TPS_UPPER || addr == Self::TPB || addr == Self::TPB_UPPER {
            Ok(0)
        } else if addr == Self::TKS {
            Ok((self.tks_value() % 256) as u8)
        } else if addr == Self::TKS_UPPER {
            Ok((self.tks_value() / 256) as u8)
        } else if addr == Self::TKB {
            Ok(
                if self.device.in_buf@.len() > 0 {
                    self.device.in_buf@[0]
                } else {
                    0
                },
            )
        } else {
            Err(EmuError::DeviceError(addr))
        }
    }

    /// The teletype after a byte read at `addr`: only reading the keyboard
    /// buffer takes the character read.
    pub open spec fn read_byte_post(pre: Teletype, addr: u16, post: Teletype) -> bool {
        if addr == Self::TKB {
            &&& Self::same_regs(pre, post)
            &&& post.device.out_buf == pre.device.out_buf
            &&& post.device.in_buf@ == (if pre.device.in_buf@.len() > 0 {
                pre.device.in_buf@.drop_first()
            } else {
                pre.device.in_buf@
            })
        } else {
            post == pre
        }
    }

    /// A word read: the keyboard status whole, otherwise the byte read.
    pub open spec fn read_word_result(self, addr: u16) -> Result<u16, EmuError> {
        if addr == Self::TKS {
            Ok(self.tks_value())
        } else {
            match self.read_byte_result(addr) {
                Ok(b) => Ok(b as u16),
                Err(e) => Err(e),
            }
        }
    }

    /// Writing a byte at `addr` takes `pre` to `post` with result `r`.
    pub open spec fn write_byte_rel(
        pre: Teletype,
        addr: u16,
        val: u8,
        post: Teletype,
        r: Result<(), EmuError>,
    ) -> bool {
        if addr == Self::TPS {
            let ie = val & Self::TPS_INT_ENB_MASK != 0;
            &&& r == Ok::<(), EmuError>(())
            &&& post == Teletype {
                tps_maintenance_control: val & Self::TPS_MAINT_MASK != 0,
                tps_interrupt_enabled: ie,
                printer_interrupt_accepted: if pre.tps_interrupt_enabled && !ie {
                    false
                } else {
                    pre.printer_interrupt_accepted
                },
                ..pre
            }
        } else if addr == Self::TPB {
            &&& r == Ok::<(), EmuError>(())
            &&& if pre.tps_ready {
                &&& post.device.out_buf@ == pre.device.out_buf@.push(val)
                &&& post.device.in_buf == pre.device.in_buf
                &&& post == Teletype {
                    tps_ready: false,
                    tps_ticks_until_ready: Self::PRINT_DELAY_TICKS,
                    device: post.device,
                    ..pre
                }
            } else {
                post == pre
            }
        } else if addr == Self::TKS {
            r == Ok::<(), EmuError>(()) && post == Teletype {
                tks_interrupt_enabled: (val as u16) & Self::TKS_INT_ENB_MASK != 0,
                ..pre
            }
        } else if addr == Self::TPS_UPPER || addr == Self::TPB_UPPER || addr == Self::TKB || addr
            == Self::TKB_UPPER {
            r == Ok::<(), EmuError>(()) && post == pre
        } else {
            r == Err::<(), EmuError>(EmuError::DeviceError(addr)) && post == pre
        }
    }

    fn tps_write(&mut self, val: u8)
        ensures
            *final(self) == (Teletype {
                tps_maintenance_control: val & Self::TPS_MAINT_MASK != 0,
                tps_interrupt_enabled: val & Self::TPS_INT_ENB_MASK != 0,
                printer_interrupt_accepted: if old(self).tps_interrupt_enabled && !(val
                    & Self::TPS_INT_ENB_MASK != 0) {
                    false
                } else {
                    old(self).printer_interrupt_accepted
                },
                ..*old(self)
            }),
            final(self).tps_maintenance_control == (val & Self::TPS_MAINT_MASK != 0),
            final(self).tps_interrupt_enabled == (val & Self::TPS_INT_ENB_MASK != 0),
            old(self).tps_interrupt_enabled && !final(self).tps_interrupt_enabled ==> !final(self).printer_interrupt_accepted,
            !(old(self).tps_interrupt_enabled && !final(self).tps_interrupt_enabled) ==> final(self).printer_interrupt_accepted
                == old(self).printer_interrupt_accepted,
            final(self).device == old(self).device,
            final(self).tps_ready == old(self).tps_ready,
            final(self).tps_ticks_until_ready == old(self).tps_ticks_until_ready,
    {
        self.tps_maintenance_control = (val & Self::TPS_MAINT_MASK) != 0;
        let were_enabled = self.tps_interrupt_enabled;
        self.tps_interrupt_enabled = (val & Self::TPS_INT_ENB_MASK) != 0;
        if were_enabled && !self.tps_interrupt_enabled {
            // Disabling while ready forgets the accepted interrupt, so that
            // enabling again interrupts anew.
            self.printer_interrupt_accepted = false;
        }
    }

    /// Prints the character if the printer is ready; otherwise it is lost.
    fn tpb_write(&mut self, val: u8)
        ensures
            old(self).tps_ready ==> *final(self) == (Teletype {
                tps_ready: false,
                tps_ticks_until_ready: Self::PRINT_DELAY_TICKS,
                device: final(self).device,
                ..*old(self)
            }),
            !old(self).tps_ready ==> *final(self) == *old(self),
            old(self).tps_ready ==> final(self).device.out_buf@ == old(self).device.out_buf@.push(val)
                && !final(self).tps_ready && final(self).tps_ticks_until_ready == Self::PRINT_DELAY_TICKS,
            !old(self).tps_ready ==> final(self).device == old(self).device && !final(self).tps_ready
                && final(self).tps_ticks_until_ready == old(self).tps_ticks_until_ready,
            final(self).device.in_buf == old(self).device.in_buf,
    {
        if self.tps_ready {
            self.device.handle_output(val);
            self.tps_ticks_until_ready = Self::PRINT_DELAY_TICKS;
            self.tps_ready = false;
        }
    }

    /// The printer status: maintenance (bit 2), interrupt enable (bit 6),
    /// ready (bit 7).
    pub open spec fn tps_value(&self) -> u8 {
        ((if self.tps_maintenance_control { 0x4u8 } else { 0u8 }) + (if self.tps_interrupt_enabled {
            0x40u8
        } else {
            0u8
        }) + (if self.tps_ready { 0x80u8 } else { 0u8 })) as u8
    }

    fn tps_read(&self) -> (r: u8)
        ensures
            r == self.tps_value(),
    {
        (if self.tps_maintenance_control { 0x4u8 } else { 0u8 }) + (if self.tps_interrupt_enabled {
            0x40u8
        } else {
            0u8
        }) + (if self.tps_ready { 0x80u8 } else { 0u8 })
    }

    fn tks_write(&mut self, val: u16)
        ensures
            *final(self) == (Teletype {
                tks_interrupt_enabled: val & Self::TKS_INT_ENB_MASK != 0,
                ..*old(self)
            }),
            final(self).tks_interrupt_enabled == (val & Self::TKS_INT_ENB_MASK != 0),
            final(self).device == old(self).device,
    {
        self.tks_interrupt_enabled = (val & Self::TKS_INT_ENB_MASK) != 0;
    }

    /// The keyboard status: bit 6 reflects the printer's interrupt enable,
    /// bit 7 (done) whether a typed character is waiting.
    pub open spec fn tks_value(&self) -> u16 {
        ((if self.tps_interrupt_enabled { 0x40u16 } else { 0u16 }) + (if self.device.in_buf@.len()
            > 0 {
            0x80u16
        } else {
            0u16
        })) as u16
    }

    fn tks_read(&mut self) -> (r: u16)
        ensures
            r == old(self).tks_value(),
            *final(self) == *old(self),
    {
        (if self.tps_interrupt_enabled { 0x40u16 } else { 0u16 }) + (if self.device.input_available() {
            0x80u16
        } else {
            0u16
        })
    }

    /// The next typed character, or zero when none is waiting.
    fn tkb_read(&mut self) -> (r: u8)
        ensures
            old(self).device.in_buf@.len() > 0 ==> r == old(self).device.in_buf@[0]
                && final(self).device.in_buf@ == old(self).device.in_buf@.drop_first(),
            old(self).device.in_buf@.len() == 0 ==> r == 0 && final(self).device.in_buf@ == old(self).device.in_buf@,
            final(self).device.out_buf == old(self).device.out_buf,
            Self::same_regs(*old(self), *final(self)),
    {
        match self.device.poll_input() {
            Some(ch) => ch,
            None => 0,
        }
    }
}

impl MMIOHandler for Teletype {
    fn reset(&mut self, emu: &mut EmulatorState)
        ensures
            *final(emu) == *old(emu),
            *final(self) == *old(self),
    {
    }

    /// Counts down the printer's busy time; the keyboard's interrupt (when a
    /// character is waiting and keyboard interrupts are enabled) comes before
    /// the printer's (when ready, enabled and not yet accepted).
    fn tick(&mut self, emu: &mut EmulatorState) -> (r: Result<Option<Interrupt>, EmuError>)
        ensures
            *final(emu) == *old(emu),
            (*final(self), r) == old(self).tick_spec(),
            old(self).tps_maintenance_control ==> r is Err,
            !old(self).tps_maintenance_control ==> {
                &&& final(self).tps_ticks_until_ready == (if old(self).tps_ticks_until_ready > 0 {
                    (old(self).tps_ticks_until_ready - 1) as u64
                } else {
                    0
                })
                &&& final(self).tps_ready == (old(self).tps_ready || final(self).tps_ticks_until_ready
                    == 0)
                &&& (old(self).device.in_buf@.len() > 0 && old(self).tks_interrupt_enabled) ==> r
                    == Ok::<Option<Interrupt>, EmuError>(
                    Some(Interrupt { prio: Self::PRINT_PRIO, vector: Self::KEY_VECTOR }),
                )
            },
    {
        if self.tps_maintenance_control {
            return Err(EmuError::DeviceError(Self::TPS));
        }
        if self.tps_ticks_until_ready == 1 {
            self.printer_interrupt_accepted = false;
        }
        self.tps_ticks_until_ready = self.tps_ticks_until_ready.saturating_sub(1);
        if self.tps_ticks_until_ready == 0 {
            self.tps_ready = true;
        }
        if self.device.input_available() && self.tks_interrupt_enabled {
            self.keyboard_interrupted = true;
            return Ok(Some(Interrupt { prio: Self::PRINT_PRIO, vector: Self::KEY_VECTOR }));
        }
        if self.tps_ready && self.tps_interrupt_enabled && !self.printer_interrupt_accepted {
            self.printer_interrupted = true;
            return Ok(Some(Interrupt { prio: Self::PRINT_PRIO, vector: Self::PRINT_VECTOR }));
        }
        Ok(None)
    }

    /// The keyboard's interrupt is acknowledged first; an acknowledgement
    /// with no interrupt pending is refused.
    fn interrupt_accepted(&mut self) -> (r: Result<(), EmuError>)
        ensures
            (*final(self), r) == old(self).accept_spec(),
            old(self).keyboard_interrupted ==> r is Ok && !final(self).keyboard_interrupted,
            !old(self).keyboard_interrupted && old(self).printer_interrupted ==> r is Ok
                && !final(self).printer_interrupted && final(self).printer_interrupt_accepted,
            !old(self).keyboard_interrupted && !old(self).printer_interrupted ==> r is Err,
    {
        if self.keyboard_interrupted {
            self.keyboard_interrupted = false;
            Ok(())
        } else if self.printer_interrupted {
            self.printer_interrupted = false;
            self.printer_interrupt_accepted = true;
            Ok(())
        } else {
            Err(EmuError::DeviceError(Self::TKS))
        }
    }

    fn default_addrs(&self) -> (r: Vec<u16>)
        ensures
            r@ == seq![Self::TPS, Self::TPB, Self::TKS, Self::TKB],
    {
        let mut v = Vec::new();
        v.push(Self::TPS);
        v.push(Self::TPB);
        v.push(Self::TKS);
        v.push(Self::TKB);
        v
    }

    fn read_byte(&mut self, emu: &mut EmulatorState, addr: u16) -> (r: Result<u8, EmuError>)
        ensures
            *final(emu) == *old(emu),
            r == old(self).read_byte_result(addr),
            Self::read_byte_post(*old(self), addr, *final(self)),
            addr == Self::TPS ==> r == Ok::<u8, EmuError>(old(self).tps_value()),
            addr == Self::TKS ==> r == Ok::<u8, EmuError>((old(self).tks_value() % 256) as u8),
    {
        if addr == Self::TPS {
            Ok(self.tps_read())
        } else if addr == Self::TPS_UPPER || addr == Self::TPB || addr == Self::TPB_UPPER {
            Ok(0)
        } else if addr == Self::TKS {
            Ok((self.tks_read() % 256) as u8)
        } else if addr == Self::TKS_UPPER {
            Ok((self.tks_read() / 256) as u8)
        } else if addr == Self::TKB {
            Ok(self.tkb_read())
        } else {
            Err(EmuError::DeviceError(addr))
        }
    }

    fn read_word(&mut self, emu: &mut EmulatorState, addr: u16) -> (r: Result<u16, EmuError>)
        ensures
            *final(emu) == *old(emu),
            r == old(self).read_word_result(addr),
            addr == Self::TKS ==> *final(self) == *old(self),
            addr != Self::TKS ==> Self::read_byte_post(*old(self), addr, *final(self)),
            addr == Self::TKS ==> r == Ok::<u16, EmuError>(old(self).tks_value()),
    {
        if addr == Self::TKS {
            Ok(self.tks_read())
        } else {
            match self.read_byte(emu, addr) {
                Ok(b) => Ok(b as u16),
                Err(e) => Err(e),
            }
        }
    }

    fn write_byte(&mut self, emu: &mut EmulatorState, addr: u16, val: u8) -> (r: Result<
        (),
        EmuError,
    >)
        ensures
            *final(emu) == *old(emu),
            Self::write_byte_rel(*old(self), addr, val, *final(self), r),
            addr == Self::TPB && old(self).tps_ready ==> r is Ok && final(self).device.out_buf@
                == old(self).device.out_buf@.push(val),
    {
        if addr == Self::TPS {
            self.tps_write(val);
            Ok(())
        } else if addr == Self::TPB {
            self.tpb_write(val);
            Ok(())
        } else if addr == Self::TKS {
            self.tks_write(val as u16);
            Ok(())
        } else if addr == Self::TPS_UPPER || addr == Self::TPB_UPPER || addr == Self::TKB
            || addr == Self::TKB_UPPER {
            Ok(())
        } else {
            Err(EmuError::DeviceError(addr))
        }
    }

    fn write_word(&mut self, emu: &mut EmulatorState, addr: u16, val: u16) -> (r: Result<
        (),
        EmuError,
    >)
        ensures
            *final(emu) == *old(emu),
            Self::write_byte_rel(*old(self), addr, (val % 256) as u8, *final(self), r),
    {
        self.write_byte(emu, addr, (val % 256) as u8)
    }
}

} // verus!
