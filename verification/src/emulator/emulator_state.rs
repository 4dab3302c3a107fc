//! The processor status word, and the state of the machine that devices may
//! also see: memory, registers and status.
use vstd::prelude::*;
use crate::isa::{Reg, NUM_REGS};
use crate::mem::le_word;

verus! {

/// Why the emulator stopped instead of completing an instruction. Faults
/// of the program being run (division into an odd register, a stack pointer
/// below the vectors, an odd or unanswered I/O address) come back as these
/// values; the emulator never stops the process.
#[derive(Debug, Clone, Copy, PartialEq, Eq, Structural)]
pub enum EmuError {
    /// The word at the PC is no instruction.
    InvalidInstruction(u16),
    /// No device answers at this address of the I/O page.
    InvalidMmio(u16),
    /// A word access at an odd address.
    Misaligned(u16),
    /// The stack pointer would go below the vectors' end.
    StackOverflow,
    /// An instruction (by its first word) that the emulator does not implement.
    Unimplemented(u16),
    /// A jump to a register, or to an odd address.
    IllegalJump,
    /// Division into an odd register.
    OddDivisionRegister,
    /// The PC is too close to the top of memory to fetch an instruction.
    PcOutOfRange(u16),
    /// An address computation went past the top of memory.
    AddressOverflow,
    /// A device was used in a way it does not support.
    DeviceError(u16),
    /// A device is already attached at this address.
    DuplicateHandler(u16),
    /// An arithmetic shift by sixteen places or more.
    ShiftOutOfRange,
    /// A division whose remainder does not fit in a signed word.
    RemainderOverflow,
    /// The emulator ran for the largest number of steps it counts.
    StepLimit,
}

/// The processor status word: condition codes (carry, overflow, zero,
/// negative in bits 0 to 3), the trace bit (bit 4) and the priority
/// (bits 5 to 7).
#[derive(Debug, Clone, Copy, PartialEq, Eq, Structural)]
pub struct Status(pub u16);

pub open spec fn spec_carry(raw: u16) -> bool {
    raw % 2 == 1
}

pub open spec fn spec_overflow(raw: u16) -> bool {
    (raw / 2) % 2 == 1
}

pub open spec fn spec_zero(raw: u16) -> bool {
    (raw / 4) % 2 == 1
}

pub open spec fn spec_negative(raw: u16) -> bool {
    (raw / 8) % 2 == 1
}

pub open spec fn spec_t(raw: u16) -> bool {
    (raw / 16) % 2 == 1
}

pub open spec fn spec_prio(raw: u16) -> u8 {
    ((raw / 32) % 8) as u8
}

pub open spec fn b2u(b: bool) -> u16 {
    if b {
        1
    } else {
        0
    }
}

/// The status word with the four condition codes replaced.
pub open spec fn with_nzvc(raw: u16, n: bool, z: bool, v: bool, c: bool) -> u16 {
    ((raw / 16) * 16 + b2u(n) * 8 + b2u(z) * 4 + b2u(v) * 2 + b2u(c)) as u16
}

impl Status {
    pub const CARRY_SHIFT: u16 = 0;

    pub const OVERFLOW_SHIFT: u16 = 1;

    pub const ZERO_SHIFT: u16 = 2;

    pub const NEGATIVE_SHIFT: u16 = 3;

    pub const CARRY: u16 = 0;

    pub const OVERFLOW: u16 = 1;

    pub const ZERO: u16 = 2;

    pub const NEGATIVE: u16 = 3;

    pub const C: u16 = 1;

    pub const V: u16 = 2;

    pub const Z: u16 = 4;

    pub const N: u16 = 8;

    pub const FLAGS_MASK: u16 = 0xf;

    pub const PRIO_MASK: u16 = 0x7;

    pub fn new() -> (r: Status)
        ensures
            r.0 == 0,
    {
        Status(0)
    }

    pub fn from_raw(raw: u16) -> (r: Status)
        ensures
            r.0 == raw,
    {
        Status(raw)
    }

    pub fn to_raw(&self) -> (r: u16)
        ensures
            r == self.0,
    {
        self.0
    }

    /// The four condition codes, as the low four bits.
    pub fn get_flags(&self) -> (r: u16)
        ensures
            r == self.0 % 16,
    {
        self.0 % 16
    }

    /// Replaces the four condition codes by `bits`: the codes given are
    /// set, the others cleared; the rest of the word stays.
    pub fn set_flags(&mut self, bits: u16)
        requires
            bits < 16,
        ensures
            final(self).0 == (old(self).0 & !0xfu16) | bits,
    {
        self.0 = (self.0 & !0xfu16) | bits;
    }

    /// Clears the condition codes whose bits are given.
    pub fn clear_flags(&mut self, bits: u16)
        requires
            bits < 16,
        ensures
            final(self).0 == old(self).0 & !bits,
    {
        self.0 = self.0 & !bits;
    }

    /// The condition codes as (zero, negative, carry, overflow).
    pub fn flags(&self) -> (r: (bool, bool, bool, bool))
        ensures
            r == (spec_zero(self.0), spec_negative(self.0), spec_carry(self.0), spec_overflow(
                self.0,
            )),
    {
        (self.get_zero(), self.get_negative(), self.get_carry(), self.get_overflow())
    }

    /// Replaces the four condition codes at once.
    pub fn set_nzvc(&mut self, n: bool, z: bool, v: bool, c: bool)
        ensures
            final(self).0 == with_nzvc(old(self).0, n, z, v, c),
    {
        let low: u16 = (if n { 8 } else { 0 }) + (if z { 4 } else { 0 }) + (if v { 2 } else { 0 })
            + (if c { 1 } else { 0 });
        self.0 = (self.0 / 16) * 16 + low;
    }

    pub fn get_carry(&self) -> (r: bool)
        ensures
            r == spec_carry(self.0),
    {
        self.0 % 2 == 1
    }

    pub fn set_carry(&mut self, val: bool)
        ensures
            final(self).0 == (old(self).0 / 2) * 2 + b2u(val),
            spec_carry(final(self).0) == val,
    {
        self.0 = (self.0 / 2) * 2 + if val { 1 } else { 0 };
    }

    pub fn get_overflow(&self) -> (r: bool)
        ensures
            r == spec_overflow(self.0),
    {
        (self.0 / 2) % 2 == 1
    }

    pub fn set_overflow(&mut self, val: bool)
        ensures
            final(self).0 == (old(self).0 / 4) * 4 + b2u(val) * 2 + old(self).0 % 2,
            spec_overflow(final(self).0) == val,
    {
        self.0 = (self.0 / 4) * 4 + (if val { 2 } else { 0 }) + self.0 % 2;
    }

    pub fn get_zero(&self) -> (r: bool)
        ensures
            r == spec_zero(self.0),
    {
        (self.0 / 4) % 2 == 1
    }

    pub fn set_zero(&mut self, val: bool)
        ensures
            final(self).0 == (old(self).0 / 8) * 8 + b2u(val) * 4 + old(self).0 % 4,
            spec_zero(final(self).0) == val,
    {
        self.0 = (self.0 / 8) * 8 + (if val { 4 } else { 0 }) + self.0 % 4;
    }

    pub fn get_negative(&self) -> (r: bool)
        ensures
            r == spec_negative(self.0),
    {
        (self.0 / 8) % 2 == 1
    }

    pub fn set_negative(&mut self, val: bool)
        ensures
            final(self).0 == (old(self).0 / 16) * 16 + b2u(val) * 8 + old(self).0 % 8,
            spec_negative(final(self).0) == val,
    {
        self.0 = (self.0 / 16) * 16 + (if val { 8 } else { 0 }) + self.0 % 8;
    }

    /// The trace bit.
    pub fn get_t(&self) -> (r: bool)
        ensures
            r == spec_t(self.0),
    {
        (self.0 / 16) % 2 == 1
    }

    pub fn set_t(&mut self, val: bool)
        ensures
            final(self).0 == (old(self).0 / 32) * 32 + b2u(val) * 16 + old(self).0 % 16,
            spec_t(final(self).0) == val,
    {
        self.0 = (self.0 / 32) * 32 + (if val { 16 } else { 0 }) + self.0 % 16;
    }

    /// The processor priority, 0 to 7.
    pub fn get_prio(&self) -> (r: u8)
        ensures
            r == spec_prio(self.0),
            r < 8,
    {
        ((self.0 / 32) % 8) as u8
    }

    pub fn set_prio(&mut self, val: u16)
        requires
            val < 8,
        ensures
            final(self).0 == (old(self).0 / 256) * 256 + val * 32 + old(self).0 % 32,
            spec_prio(final(self).0) == val,
    {
        self.0 = (self.0 / 256) * 256 + val * 32 + self.0 % 32;
    }
}

/// The machine as the processor sees it: registers, memory and status word.
pub struct Machine {
    pub regs: Seq<u16>,
    pub mem: Seq<u8>,
    pub status: u16,
}

/// The word stored low byte first at `addr` of memory `mem`.
pub open spec fn mem_word(mem: Seq<u8>, addr: int) -> u16 {
    le_word(mem[addr], mem[addr + 1])
}

/// Memory `mem` with the word `val` stored low byte first at `addr`.
pub open spec fn mem_with_word(mem: Seq<u8>, addr: int, val: u16) -> Seq<u8> {
    mem.update(addr, (val % 256) as u8).update(addr + 1, (val / 256) as u8)
}

/// Whether a register write is refused: the stack pointer may not go below
/// the end of the interrupt vectors.
pub open spec fn stack_overflows(reg: Reg, val: u16) -> bool {
    reg == Reg::SP && val < 0o400
}

/// The state that is separate from devices, so that they can be handed it:
/// the instruction count, memory, registers and the status word.
pub struct EmulatorState {
    num_ins: u64,
    mem: Vec<u8>,
    regs: Vec<u16>,
    status: Status,
}

impl EmulatorState {
    /// The whole 64 KiB of memory and the eight registers are present.
    pub closed spec fn wf(&self) -> bool {
        &&& self.mem@.len() == 0x10000
        &&& self.regs@.len() == NUM_REGS
    }

    pub closed spec fn view(&self) -> Machine {
        Machine { regs: self.regs@, mem: self.mem@, status: self.status.0 }
    }

    pub closed spec fn spec_num_ins(&self) -> u64 {
        self.num_ins
    }

    /// A well-formed state has the whole memory and all eight registers.
    pub proof fn lemma_wf_sizes(&self)
        requires
            self.wf(),
        ensures
            self.view().mem.len() == 0x10000,
            self.view().regs.len() == NUM_REGS,
    {
    }

    /// A machine with all memory, registers and status zero.
    pub fn new() -> (r: EmulatorState)
        ensures
            r.wf(),
            r.view().regs == Seq::new(8, |i: int| 0u16),
            r.view().mem == Seq::new(0x10000, |i: int| 0u8),
            r.view().status == 0,
            r.spec_num_ins() == 0,
    {
        let mut mem: Vec<u8> = Vec::new();
        let mut i: usize = 0;
        while i < 0x10000
            invariant
                i <= 0x10000,
                mem@ == Seq::new(i as nat, |j: int| 0u8),
            decreases 0x10000 - i,
        {
            mem.push(0);
            i = i + 1;
            assert(mem@ =~= Seq::new(i as nat, |j: int| 0u8));
        }
        let mut regs: Vec<u16> = Vec::new();
        let mut k: usize = 0;
        while k < NUM_REGS
            invariant
                k <= NUM_REGS,
                regs@ == Seq::new(k as nat, |j: int| 0u16),
            decreases NUM_REGS - k,
        {
            regs.push(0);
            k = k + 1;
            assert(regs@ =~= Seq::new(k as nat, |j: int| 0u16));
        }
        EmulatorState { num_ins: 0, mem, regs, status: Status::new() }
    }

    /// Counts one more instruction.
    pub fn inc_ins(&mut self)
        ensures
            final(self).view() == old(self).view(),
            final(self).wf() == old(self).wf(),
            final(self).spec_num_ins() == old(self).spec_num_ins().wrapping_add(1),
    {
        self.num_ins = self.num_ins.wrapping_add(1);
    }

    pub fn num_ins(&self) -> (r: u64)
        ensures
            r == self.spec_num_ins(),
    {
        self.num_ins
    }

    pub fn mem_read_byte(&self, addr: u16) -> (r: u8)
        requires
            self.wf(),
        ensures
            r == self.view().mem[addr as int],
    {
        self.mem[addr as usize]
    }

    pub fn mem_write_byte(&mut self, addr: u16, val: u8)
        requires
            old(self).wf(),
        ensures
            final(self).wf(),
            final(self).view() == (Machine { mem: old(self).view().mem.update(addr as int, val), ..old(self).view() }),
            final(self).spec_num_ins() == old(self).spec_num_ins(),
    {
        self.mem.set(addr as usize, val);
    }

    /// The word at an even address.
    pub fn mem_read_word(&self, addr: u16) -> (r: u16)
        requires
            self.wf(),
            addr % 2 == 0,
        ensures
            r == mem_word(self.view().mem, addr as int),
    {
        let lo = self.mem[addr as usize] as u16;
        let hi = self.mem[addr as usize + 1] as u16;
        lo + hi * 256
    }

    /// Stores a word at an even address.
    pub fn mem_write_word(&mut self, addr: u16, val: u16)
        requires
            old(self).wf(),
            addr % 2 == 0,
        ensures
            final(self).wf(),
            final(self).view() == (Machine { mem: mem_with_word(old(self).view().mem, addr as int, val), ..old(self).view() }),
            final(self).spec_num_ins() == old(self).spec_num_ins(),
    {
        self.mem.set(addr as usize, (val % 256) as u8);
        self.mem.set(addr as usize + 1, (val / 256) as u8);
    }

    /// Writes a register. The stack pointer may not go below 0o400: the
    /// call panics there (see [`try_reg_write_word`](Self::try_reg_write_word)
    /// for the error instead).
    pub fn reg_write_word(&mut self, reg: Reg, val: u16)
        requires
            old(self).wf(),
            !stack_overflows(reg, val),
        ensures
            final(self).wf(),
            final(self).spec_num_ins() == old(self).spec_num_ins(),
            final(self).view() == (Machine {
                regs: old(self).view().regs.update(reg.spec_code() as int, val),
                ..old(self).view()
            }),
    {
        match self.try_reg_write_word(reg, val) {
            Ok(()) => {},
            Err(_) => vstd::pervasive::unreached(),
        }
    }

    /// Replaces the low byte of a register, keeping the high byte. The stack
    /// pointer may not go below 0o400: the call panics there.
    pub fn reg_write_byte(&mut self, reg: Reg, val: u8)
        requires
            old(self).wf(),
            !stack_overflows(
                reg,
                ((old(self).view().regs[reg.spec_code() as int] / 256) * 256 + val) as u16,
            ),
        ensures
            final(self).wf(),
            final(self).spec_num_ins() == old(self).spec_num_ins(),
            final(self).view() == (Machine {
                regs: old(self).view().regs.update(
                    reg.spec_code() as int,
                    ((old(self).view().regs[reg.spec_code() as int] / 256) * 256 + val) as u16,
                ),
                ..old(self).view()
            }),
    {
        match self.try_reg_write_byte(reg, val) {
            Ok(()) => {},
            Err(_) => vstd::pervasive::unreached(),
        }
    }

    /// Writes a register; refused for a stack pointer below 0o400.
    pub fn try_reg_write_word(&mut self, reg: Reg, val: u16) -> (r: Result<(), EmuError>)
        requires
            old(self).wf(),
        ensures
            final(self).wf(),
            final(self).spec_num_ins() == old(self).spec_num_ins(),
            stack_overflows(reg, val) ==> r == Err::<(), EmuError>(EmuError::StackOverflow)
                && final(self).view() == old(self).view(),
            !stack_overflows(reg, val) ==> r is Ok && final(self).view() == (Machine {
                regs: old(self).view().regs.update(reg.spec_code() as int, val),
                ..old(self).view()
            }),
    {
        if reg == Reg::SP && val < 0o400 {
            return Err(EmuError::StackOverflow);
        }
        self.regs.set(reg.to_usize(), val);
        Ok(())
    }

    pub fn reg_read_word(&self, reg: Reg) -> (r: u16)
        requires
            self.wf(),
        ensures
            r == self.view().regs[reg.spec_code() as int],
    {
        self.regs[reg.to_usize()]
    }

    /// The low byte of a register.
    pub fn reg_read_byte(&self, reg: Reg) -> (r: u8)
        requires
            self.wf(),
        ensures
            r == self.view().regs[reg.spec_code() as int] % 256,
    {
        (self.reg_read_word(reg) % 256) as u8
    }

    /// Replaces the low byte of a register, keeping the high byte.
    pub fn try_reg_write_byte(&mut self, reg: Reg, val: u8) -> (r: Result<(), EmuError>)
        requires
            old(self).wf(),
        ensures
            ({
                let new_val = ((old(self).view().regs[reg.spec_code() as int] / 256) * 256
                    + val) as u16;
                &&& final(self).wf()
                &&& final(self).spec_num_ins() == old(self).spec_num_ins()
                &&& stack_overflows(reg, new_val) ==> r == Err::<(), EmuError>(
                    EmuError::StackOverflow,
                ) && final(self).view() == old(self).view()
                &&& !stack_overflows(reg, new_val) ==> r is Ok && final(self).view() == (Machine {
                    regs: old(self).view().regs.update(reg.spec_code() as int, new_val),
                    ..old(self).view()
                })
            }),
    {
        let old = self.reg_read_word(reg);
        let new_val = (old / 256) * 256 + val as u16;
        self.try_reg_write_word(reg, new_val)
    }

    pub fn pc(&self) -> (r: u16)
        requires
            self.wf(),
        ensures
            r == self.view().regs[7],
    {
        self.reg_read_word(Reg::PC)
    }

    /// The three words at the PC: the next instruction and the words that
    /// may follow it. Refused for an odd PC, or one within six bytes of the
    /// top of memory.
    pub fn next_ins(&self) -> (r: Result<Vec<u16>, EmuError>)
        requires
            self.wf(),
        ensures
            ({
                let pc = self.view().regs[7];
                &&& pc % 2 == 1 ==> r == Err::<Vec<u16>, EmuError>(EmuError::Misaligned(pc))
                &&& pc % 2 == 0 && pc > 0xfffa ==> r == Err::<Vec<u16>, EmuError>(
                    EmuError::PcOutOfRange(pc),
                )
                &&& pc % 2 == 0 && pc <= 0xfffa ==> (r matches Ok(ws) && ws@ == seq![
                    mem_word(self.view().mem, pc as int),
                    mem_word(self.view().mem, pc + 2),
                    mem_word(self.view().mem, pc + 4),
                ])
            }),
    {
        let pc = self.pc();
        if pc % 2 != 0 {
            return Err(EmuError::Misaligned(pc));
        }
        if pc > 0xfffa {
            return Err(EmuError::PcOutOfRange(pc));
        }
        let mut ws: Vec<u16> = Vec::new();
        ws.push(self.mem_read_word(pc));
        ws.push(self.mem_read_word(pc + 2));
        ws.push(self.mem_read_word(pc + 4));
        Ok(ws)
    }

    pub fn set_status(&mut self, status: Status)
        ensures
            final(self).wf() == old(self).wf(),
            final(self).view() == (Machine { status: status.0, ..old(self).view() }),
            final(self).spec_num_ins() == old(self).spec_num_ins(),
    {
        self.status = status;
    }

    pub fn get_status(&self) -> (r: &Status)
        ensures
            r.0 == self.view().status,
    {
        &self.status
    }

    pub fn get_status_mut(&mut self) -> (r: &mut Status)
        ensures
            r.0 == old(self).view().status,
            final(self).view() == (Machine { status: final(r).0, ..old(self).view() }),
            final(self).wf() == old(self).wf(),
            final(self).spec_num_ins() == old(self).spec_num_ins(),
    {
        &mut self.status
    }
}

} // verus!
