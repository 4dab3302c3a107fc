//! The machine: processor state, the devices attached to the I/O page, and
//! the execution of instructions.
use vstd::prelude::*;
use crate::constants::MMIO_START;
use crate::emulator::alu::{
    ash, div, double_op, double_op_size, double_op_writes, single_op, single_op_size,
    single_op_writes, spec_ash, spec_div, spec_double_op, spec_mul, spec_single_op, spec_xor,
    xor, DivOut, Size,
};
use crate::emulator::emulator_state::{
    mem_with_word, mem_word, spec_carry, spec_negative, spec_overflow, spec_zero,
    spec_prio, stack_overflows, with_nzvc, EmuError, EmulatorState, Machine, Status,
};
use crate::emulator::io::{
    status_set, Clock, FakeClock, Interrupt, MMIOHandler, StatusAccess, Teleprinter, Teletype,
};
use crate::isa::{
    spec_reg, AddrMode, BranchIns, BranchOpcode, CCIns, DoubleOperandIns, DoubleOperandOpcode,
    EisIns, EisOpcode, Ins, JmpIns, JsrIns, MiscIns, MiscOpcode, Operand, Reg, RtsIns, RtsOpcode,
    SingleOperandIns, SingleOperandOpcode, Target, TrapIns, TrapOpcode,
};

verus! {

/// A device that can be attached to the I/O page.
#[derive(Debug)]
pub enum Device {
    Status(StatusAccess),
    Clock(Clock),
    FakeClock(FakeClock),
    Teleprinter(Teleprinter),
    Teletype(Teletype),
}

impl Device {
    /// The addresses each kind of device answers at by default.
    pub open spec fn spec_default_addrs(&self) -> Seq<u16> {
        match self {
            Device::Status(_) => seq![StatusAccess::ADDR],
            Device::Clock(_) => seq![Clock::LKS],
            Device::FakeClock(_) => seq![FakeClock::LKS],
            Device::Teleprinter(_) => Seq::<u16>::empty(),
            Device::Teletype(_) => seq![Teletype::TPS, Teletype::TPB, Teletype::TKS, Teletype::TKB],
        }
    }
}

/// What resetting does to a device.
pub open spec fn device_reset(d: Device) -> Device {
    match d {
        Device::Clock(_) => Device::Clock(Clock::new_spec()),
        Device::FakeClock(f) => Device::FakeClock(FakeClock { interrupt_enable: false, ..f }),
        _ => d,
    }
}

/// A tick of a device: its new state and the interrupt it requests, if any.
pub open spec fn device_tick(d: Device) -> (Device, Result<Option<Interrupt>, EmuError>) {
    match d {
        Device::Status(_) => (d, Ok(None)),
        Device::Clock(c) => (Device::Clock(c.tick_spec().0), c.tick_spec().1),
        Device::FakeClock(f) => (
            d,
            Ok(
                if f.striker.clock && f.interrupt_enable {
                    Some(Interrupt { prio: Clock::PRIO, vector: Clock::VECTOR })
                } else {
                    None
                },
            ),
        ),
        Device::Teleprinter(t) => (Device::Teleprinter(t.tick_spec().0), t.tick_spec().1),
        Device::Teletype(t) => (Device::Teletype(t.tick_spec().0), t.tick_spec().1),
    }
}

/// A device told that its interrupt was taken.
pub open spec fn device_accept(d: Device) -> (Device, Result<(), EmuError>) {
    match d {
        Device::Teleprinter(t) => (Device::Teleprinter(Teleprinter { interrupted: true, ..t }), Ok(())),
        Device::Teletype(t) => (Device::Teletype(t.accept_spec().0), t.accept_spec().1),
        _ => (d, Ok::<(), EmuError>(())),
    }
}

/// A byte read at `addr` of device `d`, with machine state `emu`, gives `r`
/// and leaves the device as `d2`.
pub open spec fn device_read_byte(
    d: Device,
    emu: EmulatorState,
    addr: u16,
    d2: Device,
    r: Result<u8, EmuError>,
) -> bool {
    match d {
        Device::Status(_) => d2 == d && r == StatusAccess::read_byte_result(emu.view().status, addr),
        Device::Clock(c) => d2 == Device::Clock(c.read_byte_spec(addr).0) && r == c.read_byte_spec(
            addr,
        ).1,
        Device::FakeClock(f) => d2 == Device::FakeClock(f.read_byte_spec(addr).0) && r
            == f.read_byte_spec(addr).1,
        Device::Teleprinter(t) => d2 == d && r == t.read_byte_result(addr),
        Device::Teletype(t) => d2 is Teletype && r == t.read_byte_result(addr)
            && Teletype::read_byte_post(t, addr, d2->Teletype_0),
    }
}

/// A word read at `addr` of device `d`, with machine state `emu`, gives `r`
/// and leaves the device as `d2`.
pub open spec fn device_read_word(
    d: Device,
    emu: EmulatorState,
    addr: u16,
    d2: Device,
    r: Result<u16, EmuError>,
) -> bool {
    match d {
        Device::Status(_) => d2 == d && r == StatusAccess::read_word_result(emu.view().status, addr),
        Device::Clock(c) => d2 == Device::Clock(c.read_word_spec(addr).0) && r == c.read_word_spec(
            addr,
        ).1,
        Device::FakeClock(f) => d2 == Device::FakeClock(f.read_word_spec(addr).0) && r
            == f.read_word_spec(addr).1,
        Device::Teleprinter(t) => d2 == d && r == t.read_word_result(addr),
        Device::Teletype(t) => d2 is Teletype && r == t.read_word_result(addr) && (if addr
            == Teletype::TKS {
            d2 == d
        } else {
            Teletype::read_byte_post(t, addr, d2->Teletype_0)
        }),
    }
}

/// Writing byte `val` at `addr` of device `d` takes it to `d2` and the
/// machine state from `emu` to `emu2`, with result `r`; only the status
/// word's device changes the machine state.
pub open spec fn device_write_byte(
    d: Device,
    emu: EmulatorState,
    addr: u16,
    val: u8,
    d2: Device,
    emu2: EmulatorState,
    r: Result<(), EmuError>,
) -> bool {
    match d {
        Device::Status(_) => d2 == d && r == StatusAccess::write_byte_spec(addr, val).1
            && status_set(emu, StatusAccess::write_byte_spec(addr, val).0, emu2),
        Device::Clock(c) => emu2 == emu && d2 == Device::Clock(c.write_byte_spec(addr, val).0) && r
            == c.write_byte_spec(addr, val).1,
        Device::FakeClock(f) => emu2 == emu && d2 == Device::FakeClock(
            f.write_byte_spec(addr, val).0,
        ) && r == f.write_byte_spec(addr, val).1,
        Device::Teleprinter(t) => emu2 == emu && d2 is Teleprinter && Teleprinter::write_byte_rel(
            t,
            addr,
            val,
            d2->Teleprinter_0,
            r,
        ),
        Device::Teletype(t) => emu2 == emu && d2 is Teletype && Teletype::write_byte_rel(
            t,
            addr,
            val,
            d2->Teletype_0,
            r,
        ),
    }
}

/// Writing word `val` at `addr`: the status word takes the word, the other
/// devices its low byte.
pub open spec fn device_write_word(
    d: Device,
    emu: EmulatorState,
    addr: u16,
    val: u16,
    d2: Device,
    emu2: EmulatorState,
    r: Result<(), EmuError>,
) -> bool {
    match d {
        Device::Status(_) => d2 == d && r == StatusAccess::write_word_spec(addr, val).1
            && status_set(emu, StatusAccess::write_word_spec(addr, val).0, emu2),
        _ => device_write_byte(d, emu, addr, (val % 256) as u8, d2, emu2, r),
    }
}

impl MMIOHandler for Device {
    fn reset(&mut self, emu: &mut EmulatorState)
        ensures
            *final(emu) == *old(emu),
            *final(self) == device_reset(*old(self)),
    {
        match self {
            Device::Status(d) => d.reset(emu),
            Device::Clock(d) => d.reset(emu),
            Device::FakeClock(d) => d.reset(emu),
            Device::Teleprinter(d) => d.reset(emu),
            Device::Teletype(d) => d.reset(emu),
        }
    }

    fn tick(&mut self, emu: &mut EmulatorState) -> (r: Result<Option<Interrupt>, EmuError>)
        ensures
            *final(emu) == *old(emu),
            (*final(self), r) == device_tick(*old(self)),
    {
        match self {
            Device::Status(d) => d.tick(emu),
            Device::Clock(d) => d.tick(emu),
            Device::FakeClock(d) => d.tick(emu),
            Device::Teleprinter(d) => d.tick(emu),
            Device::Teletype(d) => d.tick(emu),
        }
    }

    fn interrupt_accepted(&mut self) -> (r: Result<(), EmuError>)
        ensures
            (*final(self), r) == device_accept(*old(self)),
    {
        match self {
            Device::Status(d) => d.interrupt_accepted(),
            Device::Clock(d) => d.interrupt_accepted(),
            Device::FakeClock(d) => d.interrupt_accepted(),
            Device::Teleprinter(d) => d.interrupt_accepted(),
            Device::Teletype(d) => d.interrupt_accepted(),
        }
    }

    fn default_addrs(&self) -> (r: Vec<u16>)
        ensures
            r@ == self.spec_default_addrs(),
    {
        let v = match self {
            Device::Status(d) => d.default_addrs(),
            Device::Clock(d) => d.default_addrs(),
            Device::FakeClock(d) => d.default_addrs(),
            Device::Teleprinter(d) => d.default_addrs(),
            Device::Teletype(d) => d.default_addrs(),
        };
        v
    }

    fn read_byte(&mut self, emu: &mut EmulatorState, addr: u16) -> (r: Result<u8, EmuError>)
        ensures
            *final(emu) == *old(emu),
            device_read_byte(*old(self), *old(emu), addr, *final(self), r),
    {
        match self {
            Device::Status(d) => d.read_byte(emu, addr),
            Device::Clock(d) => d.read_byte(emu, addr),
            Device::FakeClock(d) => d.read_byte(emu, addr),
            Device::Teleprinter(d) => d.read_byte(emu, addr),
            Device::Teletype(d) => d.read_byte(emu, addr),
        }
    }

    fn read_word(&mut self, emu: &mut EmulatorState, addr: u16) -> (r: Result<u16, EmuError>)
        ensures
            *final(emu) == *old(emu),
            device_read_word(*old(self), *old(emu), addr, *final(self), r),
    {
        match self {
            Device::Status(d) => d.read_word(emu, addr),
            Device::Clock(d) => d.read_word(emu, addr),
            Device::FakeClock(d) => d.read_word(emu, addr),
            Device::Teleprinter(d) => d.read_word(emu, addr),
            Device::Teletype(d) => d.read_word(emu, addr),
        }
    }

    fn write_byte(&mut self, emu: &mut EmulatorState, addr: u16, val: u8) -> (r: Result<
        (),
        EmuError,
    >)
        ensures
            device_write_byte(*old(self), *old(emu), addr, val, *final(self), *final(emu), r),
    {
        match self {
            Device::Status(d) => d.write_byte(emu, addr, val),
            Device::Clock(d) => d.write_byte(emu, addr, val),
            Device::FakeClock(d) => d.write_byte(emu, addr, val),
            Device::Teleprinter(d) => d.write_byte(emu, addr, val),
            Device::Teletype(d) => d.write_byte(emu, addr, val),
        }
    }

    fn write_word(&mut self, emu: &mut EmulatorState, addr: u16, val: u16) -> (r: Result<
        (),
        EmuError,
    >)
        ensures
            device_write_word(*old(self), *old(emu), addr, val, *final(self), *final(emu), r),
    {
        match self {
            Device::Status(d) => d.write_word(emu, addr, val),
            Device::Clock(d) => d.write_word(emu, addr, val),
            Device::FakeClock(d) => d.write_word(emu, addr, val),
            Device::Teleprinter(d) => d.write_word(emu, addr, val),
            Device::Teletype(d) => d.write_word(emu, addr, val),
        }
    }
}

/// One address of the I/O page and the index of the device answering there.
#[derive(Debug, Clone, Copy, PartialEq, Eq, Structural)]
pub struct Attachment {
    pub addr: u16,
    pub device: usize,
}

/// Memory `mem` with `data` stored from `start` on.
pub open spec fn mem_with_bytes(mem: Seq<u8>, start: int, data: Seq<u8>) -> Seq<u8> {
    Seq::new(
        mem.len(),
        |i: int|
            if start <= i < start + data.len() {
                data[i - start]
            } else {
                mem[i]
            },
    )
}

/// The first address, in order, that cannot be given to a new device when
/// the addresses in `taken` are already in use: one below the I/O page, an
/// odd one, or one in use (also earlier in the same list).
pub open spec fn first_attach_error(taken: Set<u16>, addrs: Seq<u16>) -> Option<EmuError>
    decreases addrs.len(),
{
    if addrs.len() == 0 {
        None
    } else {
        let a = addrs[0];
        if a < MMIO_START {
            Some(EmuError::InvalidMmio(a))
        } else if a % 2 == 1 {
            Some(EmuError::Misaligned(a))
        } else if taken.contains(a) {
            Some(EmuError::DuplicateHandler(a))
        } else {
            first_attach_error(taken.insert(a), addrs.drop_first())
        }
    }
}


/// Where an operand lives once its addressing has been carried out.
#[derive(Debug, Clone, Copy, PartialEq, Eq, Structural)]
pub enum ResolvedOperand {
    Reg(Reg),
    Mem(u16),
}

/// The value of register `r`.
pub open spec fn reg_of(m: Machine, r: Reg) -> u16 {
    m.regs[r.spec_code() as int]
}

/// The machine after `v` is written to register `r`; `None` where the write
/// is refused (a stack pointer below the vectors' end).
pub open spec fn put_reg(m: Machine, r: Reg, v: u16) -> Option<Machine> {
    if stack_overflows(r, v) {
        None
    } else {
        Some(Machine { regs: m.regs.update(r.spec_code() as int, v), ..m })
    }
}

/// The machine with the four condition codes replaced.
pub open spec fn with_flags(m: Machine, n: bool, z: bool, v: bool, c: bool) -> Machine {
    Machine { status: with_nzvc(m.status, n, z, v, c), ..m }
}

/// The value of width `size` at a location held in a register or in memory
/// below the I/O page; `None` elsewhere, or for a word at an odd address.
pub open spec fn read_loc(m: Machine, loc: ResolvedOperand, size: Size) -> Option<u16> {
    match loc {
        ResolvedOperand::Reg(r) => Some(
            if size == Size::Word {
                reg_of(m, r)
            } else {
                (reg_of(m, r) % 256) as u16
            },
        ),
        ResolvedOperand::Mem(a) => if a >= MMIO_START {
            None
        } else if size == Size::Word {
            if a % 2 == 0 {
                Some(mem_word(m.mem, a as int))
            } else {
                None
            }
        } else {
            Some(m.mem[a as int] as u16)
        },
    }
}

/// The machine after `v` is written with width `size` to a location held in
/// a register (a byte replaces the low half) or in memory below the I/O
/// page; `None` elsewhere, for a word at an odd address, or where the
/// register write is refused.
pub open spec fn write_loc(m: Machine, loc: ResolvedOperand, size: Size, v: u16) -> Option<
    Machine,
> {
    match loc {
        ResolvedOperand::Reg(r) => if size == Size::Word {
            put_reg(m, r, v)
        } else {
            put_reg(m, r, ((reg_of(m, r) / 256) * 256 + v % 256) as u16)
        },
        ResolvedOperand::Mem(a) => if a >= MMIO_START {
            None
        } else if size == Size::Word {
            if a % 2 == 0 {
                Some(Machine { mem: mem_with_word(m.mem, a as int, v), ..m })
            } else {
                None
            }
        } else {
            Some(Machine { mem: m.mem.update(a as int, (v % 256) as u8), ..m })
        },
    }
}

/// How far auto-increment and auto-decrement move a register: two bytes
/// for words and always for the PC, one byte for bytes.
pub open spec fn auto_step(r: Reg, size: Size) -> int {
    if r == Reg::PC || size == Size::Word {
        2
    } else {
        1
    }
}

/// The register moved by auto-increment (`inc`) or auto-decrement: the
/// machine after the move and the address the operand uses.
pub open spec fn spec_auto(m: Machine, r: Reg, inc: bool, size: Size) -> Option<(Machine, u16)> {
    let v = reg_of(m, r);
    let moved = if inc {
        ((v + auto_step(r, size)) % 65536) as u16
    } else {
        ((v + 65536 - auto_step(r, size)) % 65536) as u16
    };
    match put_reg(m, r, moved) {
        Some(m1) => Some((m1, if inc { v } else { moved })),
        None => None,
    }
}

/// The location an operand names and the machine after its side effects
/// (register moves, the PC moved past an index word), where every word it
/// reads lies in memory below the I/O page. Indexed modes read the
/// register before the PC moves past the index word, so that PC-relative
/// operands count from the index word itself.
pub open spec fn spec_resolve(m: Machine, mode: AddrMode, r: Reg, size: Size) -> Option<
    (Machine, ResolvedOperand),
> {
    match mode {
        AddrMode::Gen => Some((m, ResolvedOperand::Reg(r))),
        AddrMode::Def => Some((m, ResolvedOperand::Mem(reg_of(m, r)))),
        AddrMode::AutoInc | AddrMode::AutoDec => match spec_auto(
            m,
            r,
            mode == AddrMode::AutoInc,
            size,
        ) {
            Some((m1, a)) => Some((m1, ResolvedOperand::Mem(a))),
            None => None,
        },
        AddrMode::AutoIncDef | AddrMode::AutoDecDef => match spec_auto(
            m,
            r,
            mode == AddrMode::AutoIncDef,
            Size::Word,
        ) {
            Some((m1, a)) => match read_loc(m1, ResolvedOperand::Mem(a), Size::Word) {
                Some(p) => Some((m1, ResolvedOperand::Mem(p))),
                None => None,
            },
            None => None,
        },
        AddrMode::Index | AddrMode::IndexDef => match spec_auto(m, Reg::PC, true, Size::Word) {
            Some((m1, ia)) => match read_loc(m1, ResolvedOperand::Mem(ia), Size::Word) {
                Some(imm) => {
                    let a = ((reg_of(m, r) + imm) % 65536) as u16;
                    if mode == AddrMode::Index {
                        Some((m1, ResolvedOperand::Mem(a)))
                    } else {
                        match read_loc(m1, ResolvedOperand::Mem(a), Size::Word) {
                            Some(p) => Some((m1, ResolvedOperand::Mem(p))),
                            None => None,
                        }
                    }
                },
                None => None,
            },
            None => None,
        },
    }
}

/// What a `run_ins` step reports.
#[derive(Debug, Clone, Copy, PartialEq, Eq, Structural)]
pub enum ExecRet {
    /// An instruction was executed and execution goes on.
    Continue,
    /// A `halt` was executed.
    Halt,
    /// The processor waits for an interrupt.
    Wait,
}

/// A byte taken as a signed number and widened to a word.
pub open spec fn sign_extend(b: u16) -> u16 {
    if b >= 128 {
        (b + 0xff00) as u16
    } else {
        b
    }
}

/// A double-operand instruction: the source is resolved and read, then the
/// destination resolved; `mov` writes the source (a byte moved to a register
/// is sign-extended) and sets the codes; the others set the codes from the
/// result and then write it, except `cmp` and `bit`.
pub open spec fn spec_exec_double(m: Machine, i: DoubleOperandIns) -> Option<Machine> {
    let size = double_op_size(i.op);
    match spec_resolve(m, i.src.mode, i.src.reg, size) {
        Some((m1, sloc)) => match read_loc(m1, sloc, size) {
            Some(sv) => match spec_resolve(m1, i.dst.mode, i.dst.reg, size) {
                Some((m2, dloc)) => {
                    let c = spec_carry(m2.status);
                    if i.op == DoubleOperandOpcode::Mov || i.op == DoubleOperandOpcode::MovB {
                        let out = spec_double_op(i.op, size, sv, 0, c);
                        let written = if i.op == DoubleOperandOpcode::MovB && dloc is Reg {
                            write_loc(m2, dloc, Size::Word, sign_extend(sv))
                        } else {
                            write_loc(m2, dloc, size, sv)
                        };
                        match written {
                            Some(m3) => Some(with_flags(m3, out.n, out.z, out.v, out.c)),
                            None => None,
                        }
                    } else {
                        match read_loc(m2, dloc, size) {
                            Some(dv) => {
                                let out = spec_double_op(i.op, size, sv, dv, c);
                                let m3 = with_flags(m2, out.n, out.z, out.v, out.c);
                                if double_op_writes(i.op) {
                                    write_loc(m3, dloc, size, out.res)
                                } else {
                                    Some(m3)
                                }
                            },
                            None => None,
                        }
                    }
                },
                None => None,
            },
            None => None,
        },
        None => None,
    }
}

/// A single-operand instruction: the operand is resolved as a word operand
/// (also for the byte forms), read (except by `clr`), the result written
/// back (except by `tst`) and the codes set.
pub open spec fn spec_exec_single(m: Machine, i: SingleOperandIns) -> Option<Machine> {
    let size = single_op_size(i.op);
    match spec_resolve(m, i.dst.mode, i.dst.reg, Size::Word) {
        Some((m1, loc)) => {
            let val = if i.op == SingleOperandOpcode::Clr || i.op == SingleOperandOpcode::ClrB {
                Some(0u16)
            } else {
                read_loc(m1, loc, size)
            };
            match val {
                Some(v) => {
                    let out = spec_single_op(i.op, size, v as int, spec_carry(m1.status));
                    let written = if single_op_writes(i.op) {
                        write_loc(m1, loc, size, out.res)
                    } else {
                        Some(m1)
                    };
                    match written {
                        Some(m2) => Some(with_flags(m2, out.n, out.z, out.v, out.c)),
                        None => None,
                    }
                },
                None => None,
            }
        },
        None => None,
    }
}

/// The register after `r`: the high half of a register pair.
pub open spec fn pair_reg(r: Reg) -> Reg {
    spec_reg((r.spec_code() + 1) as u16)
}

/// An instruction of the extended set. `xor` writes its operand; `mul`
/// stores the low word of the product in the register and, for an even
/// register, the high word in the next; `div` divides the pair starting at
/// an even register; `ash` shifts the register; `ashc` is not provided.
pub open spec fn spec_exec_eis(m: Machine, i: EisIns) -> Option<Machine> {
    match spec_resolve(m, i.operand.mode, i.operand.reg, Size::Word) {
        Some((m1, loc)) => match read_loc(m1, loc, Size::Word) {
            Some(val) => {
                let rv = reg_of(m1, i.reg);
                let c = spec_carry(m1.status);
                match i.op {
                    EisOpcode::Xor => {
                        let out = spec_xor(val, rv, c);
                        match write_loc(m1, loc, Size::Word, out.res) {
                            Some(m2) => Some(with_flags(m2, out.n, out.z, out.v, out.c)),
                            None => None,
                        }
                    },
                    EisOpcode::Mul => {
                        let p = spec_mul(val, rv);
                        match put_reg(with_flags(m1, p.n, p.z, false, p.c), i.reg, p.lo) {
                            Some(m2) => if i.reg.spec_code() % 2 == 0 {
                                put_reg(m2, pair_reg(i.reg), p.hi)
                            } else {
                                Some(m2)
                            },
                            None => None,
                        }
                    },
                    EisOpcode::Div => if i.reg.spec_code() % 2 == 1 {
                        None
                    } else {
                        match spec_div(val, reg_of(m1, pair_reg(i.reg)), rv) {
                            DivOut::ByZero => Some(
                                with_flags(
                                    m1,
                                    spec_negative(m1.status),
                                    spec_zero(m1.status),
                                    true,
                                    true,
                                ),
                            ),
                            DivOut::Overflow { n, z } => Some(with_flags(m1, n, z, true, false)),
                            DivOut::Done { quot, rem, n, z } => match put_reg(
                                with_flags(m1, n, z, false, false),
                                i.reg,
                                quot,
                            ) {
                                Some(m2) => put_reg(m2, pair_reg(i.reg), rem),
                                None => None,
                            },
                            DivOut::RemainderTooLarge => None,
                        }
                    },
                    EisOpcode::Ash => match spec_ash(val, rv) {
                        Some(out) => match put_reg(m1, i.reg, out.res) {
                            Some(m2) => Some(with_flags(m2, out.n, out.z, out.v, out.c)),
                            None => None,
                        },
                        None => None,
                    },
                    EisOpcode::Ashc => None,
                }
            },
            None => None,
        },
        None => None,
    }
}

/// Whether a branch is taken under the condition codes of `status`.
pub open spec fn branch_taken(op: BranchOpcode, status: u16) -> bool {
    let z = spec_zero(status);
    let n = spec_negative(status);
    let c = spec_carry(status);
    let v = spec_overflow(status);
    match op {
        BranchOpcode::Br => true,
        BranchOpcode::Bne => !z,
        BranchOpcode::Beq => z,
        BranchOpcode::Bmi => n,
        BranchOpcode::Bpl => !n,
        BranchOpcode::Bcs => c,
        BranchOpcode::Bcc => !c,
        BranchOpcode::Bvs => v,
        BranchOpcode::Bvc => !v,
        BranchOpcode::Blt => n != v,
        BranchOpcode::Bge => n == v,
        BranchOpcode::Ble => z || n != v,
        BranchOpcode::Bgt => !(z || n != v),
        BranchOpcode::Bhi => !c && !z,
        BranchOpcode::Blos => c || z,
    }
}

/// The byte offset of a branch: twice its word offset taken as signed.
pub open spec fn branch_disp(off: u8) -> int {
    if off >= 128 {
        (off - 256) * 2
    } else {
        off * 2
    }
}

/// A branch: when taken, the PC moves by the offset from the word after
/// the branch.
pub open spec fn spec_exec_branch(m: Machine, i: BranchIns) -> Option<Machine> {
    if branch_taken(i.op, m.status) {
        let pc = reg_of(m, Reg::PC);
        put_reg(m, Reg::PC, ((pc + branch_disp(i.target->Offset_0) + 65536) % 65536) as u16)
    } else {
        Some(m)
    }
}

/// The target of `jmp` and `jsr`: a memory operand at an even address.
pub open spec fn spec_jump_target(m: Machine, dst: Operand) -> Option<(Machine, u16)> {
    match spec_resolve(m, dst.mode, dst.reg, Size::Word) {
        Some((m1, ResolvedOperand::Mem(a))) => if a % 2 == 0 {
            Some((m1, a))
        } else {
            None
        },
        _ => None,
    }
}

/// A word pushed on the stack.
pub open spec fn spec_push(m: Machine, val: u16) -> Option<Machine> {
    let sp = reg_of(m, Reg::SP);
    if sp < 2 {
        None
    } else {
        match put_reg(m, Reg::SP, (sp - 2) as u16) {
            Some(m1) => write_loc(m1, ResolvedOperand::Mem((sp - 2) as u16), Size::Word, val),
            None => None,
        }
    }
}

/// A word popped from the stack, and the machine after.
pub open spec fn spec_pop(m: Machine) -> Option<(Machine, u16)> {
    let sp = reg_of(m, Reg::SP);
    match read_loc(m, ResolvedOperand::Mem(sp), Size::Word) {
        Some(v) => match put_reg(m, Reg::SP, (sp + 2) as u16) {
            Some(m1) => Some((m1, v)),
            None => None,
        },
        None => None,
    }
}

/// `jsr`: the linkage register is pushed, receives the return address, and
/// the PC the target.
pub open spec fn spec_exec_jsr(m: Machine, i: JsrIns) -> Option<Machine> {
    match spec_jump_target(m, i.dst) {
        Some((m1, target)) => match spec_push(m1, reg_of(m1, i.reg)) {
            Some(m2) => match put_reg(m2, i.reg, reg_of(m2, Reg::PC)) {
                Some(m3) => put_reg(m3, Reg::PC, target),
                None => None,
            },
            None => None,
        },
        None => None,
    }
}

/// `rts`: the PC receives the linkage register, which is popped.
pub open spec fn spec_exec_rts(m: Machine, i: RtsIns) -> Option<Machine> {
    match put_reg(m, Reg::PC, reg_of(m, i.reg)) {
        Some(m1) => match spec_pop(m1) {
            Some((m2, v)) => put_reg(m2, i.reg, v),
            None => None,
        },
        None => None,
    }
}

/// A condition-code instruction with bit 4 of its code replaces the four
/// codes by the low four bits (the codes named are set, the others
/// cleared); without it, it clears the codes named.
pub open spec fn spec_exec_cc(m: Machine, i: CCIns) -> Machine {
    let code = i.op.spec_code();
    let bits = code % 16;
    if (code / 16) % 2 == 1 {
        Machine { status: (m.status & !0xfu16) | bits, ..m }
    } else {
        Machine { status: m.status & !bits, ..m }
    }
}

/// An interrupt through `vector`: status word and PC are pushed, then PC and
/// status word loaded from the vector.
pub open spec fn spec_interrupt(m: Machine, vector: u16) -> Option<Machine> {
    match spec_push(m, m.status) {
        Some(m1) => match spec_push(m1, reg_of(m1, Reg::PC)) {
            Some(m2) => if vector > 0xfffd {
                None
            } else {
                match read_loc(m2, ResolvedOperand::Mem(vector), Size::Word) {
                    Some(pc) => match read_loc(m2, ResolvedOperand::Mem((vector + 2) as u16), Size::Word) {
                        Some(ps) => match put_reg(m2, Reg::PC, pc) {
                            Some(m3) => Some(Machine { status: ps, ..m3 }),
                            None => None,
                        },
                        None => None,
                    },
                    None => None,
                }
            },
            None => None,
        },
        None => None,
    }
}

/// `rti`: PC and status word are popped.
pub open spec fn spec_rti(m: Machine) -> Option<Machine> {
    match spec_pop(m) {
        Some((m1, pc)) => match spec_pop(m1) {
            Some((m2, ps)) => match put_reg(m2, Reg::PC, pc) {
                Some(m3) => Some(Machine { status: ps, ..m3 }),
                None => None,
            },
            None => None,
        },
        None => None,
    }
}

/// The vector of a trap instruction.
pub open spec fn trap_vector(op: TrapOpcode) -> u16 {
    match op {
        TrapOpcode::Emt => 0o30,
        TrapOpcode::Trap => 0o34,
    }
}

/// The execution of an instruction whose words have been fetched (the PC
/// is past the instruction word): the machine after it and what it reports,
/// where everything it touches lies in registers or memory below the I/O
/// page; `None` elsewhere and on errors.
pub open spec fn spec_exec(m: Machine, ins: Ins) -> Option<(Machine, ExecRet)> {
    let cont = |o: Option<Machine>|
        match o {
            Some(m1) => Some((m1, ExecRet::Continue)),
            None => None,
        };
    match ins {
        Ins::DoubleOperand(i) => cont(spec_exec_double(m, i)),
        Ins::Branch(i) => cont(spec_exec_branch(m, i)),
        Ins::Jmp(i) => match spec_jump_target(m, i.dst) {
            Some((m1, target)) => cont(put_reg(m1, Reg::PC, target)),
            None => None,
        },
        Ins::Jsr(i) => cont(spec_exec_jsr(m, i)),
        Ins::Rts(i) => cont(spec_exec_rts(m, i)),
        Ins::SingleOperand(i) => cont(spec_exec_single(m, i)),
        Ins::Eis(i) => cont(spec_exec_eis(m, i)),
        Ins::CC(i) => Some((spec_exec_cc(m, i), ExecRet::Continue)),
        Ins::Misc(i) => match i.op {
            MiscOpcode::Halt => Some((m, ExecRet::Halt)),
            MiscOpcode::Wait => Some((m, ExecRet::Wait)),
            MiscOpcode::Rti => cont(spec_rti(m)),
            _ => None,
        },
        Ins::Trap(i) => cont(spec_interrupt(m, trap_vector(i.op))),
    }
}

/// The words at the PC, as fetched.
pub open spec fn fetched(m: Machine) -> Seq<u16> {
    let pc = reg_of(m, Reg::PC) as int;
    seq![mem_word(m.mem, pc), mem_word(m.mem, pc + 2), mem_word(m.mem, pc + 4)]
}

/// One step of the processor: the instruction at the PC is decoded, the PC
/// moved past its first word, and the instruction executed.
#[verifier::opaque]
pub open spec fn spec_step(m: Machine) -> Option<(Machine, ExecRet)> {
    let pc = reg_of(m, Reg::PC);
    if pc % 2 == 1 || pc > 0xfffa {
        None
    } else {
        match crate::decoder::spec_decode_common(fetched(m)) {
            Some(ins) => spec_exec(
                Machine { regs: m.regs.update(7, (pc + 2) as u16), ..m },
                ins,
            ),
            None => None,
        }
    }
}

/// What one step of the processor does, from machine `pre` (waiting for an
/// interrupt or not) to the result `r` and machine `post`: nothing while
/// waiting; the errors of fetching and decoding; otherwise [`spec_step`],
/// where everything the instruction touches lies in registers or memory
/// below the I/O page. A reported `halt` comes from executing one.
#[verifier::opaque]
pub open spec fn stepped(
    pre: Machine,
    pre_waiting: bool,
    r: Result<ExecRet, EmuError>,
    post: Machine,
    post_waiting: bool,
) -> bool {
    if pre_waiting {
        r == Ok::<ExecRet, EmuError>(ExecRet::Wait) && post == pre && post_waiting
    } else {
        let pc = reg_of(pre, Reg::PC);
        &&& pc % 2 == 1 ==> r == Err::<ExecRet, EmuError>(EmuError::Misaligned(pc)) && post == pre
            && !post_waiting
        &&& pc % 2 == 0 && pc > 0xfffa ==> r == Err::<ExecRet, EmuError>(
            EmuError::PcOutOfRange(pc),
        ) && post == pre && !post_waiting
        &&& pc % 2 == 0 && pc <= 0xfffa && crate::decoder::spec_decode_common(fetched(pre)) is None ==> r
            == Err::<ExecRet, EmuError>(EmuError::InvalidInstruction(fetched(pre)[0])) && post
            == pre && !post_waiting
        &&& spec_step(pre) matches Some((m1, ret)) ==> r == Ok::<ExecRet, EmuError>(ret) && post
            == m1 && post_waiting == (ret == ExecRet::Wait)
        &&& r == Ok::<ExecRet, EmuError>(ExecRet::Halt) ==> spec_step(pre) == Some(
            (post, ExecRet::Halt),
        )
    }
}

/// A reported `halt` is the step of some machine.
pub proof fn lemma_halt_stepped(pre: Machine, w: bool, post: Machine, pw: bool)
    requires
        stepped(pre, w, Ok(ExecRet::Halt), post, pw),
    ensures
        !w,
        spec_step(pre) == Some((post, ExecRet::Halt)),
{
    reveal(stepped);
}

/// What a run from machine `m`, not waiting and with no device but the
/// status word, comes to, with at most `n` instructions after this one:
/// the machine after the `halt`, or the error that stops it; `None` where
/// the instructions cannot tell (a wait, or an instruction that reaches the
/// I/O page).
pub open spec fn run_result(m: Machine, n: nat) -> Option<Result<Machine, EmuError>>
    decreases n,
{
    let pc = reg_of(m, Reg::PC);
    if pc % 2 == 1 {
        Some(Err(EmuError::Misaligned(pc)))
    } else if pc > 0xfffa {
        Some(Err(EmuError::PcOutOfRange(pc)))
    } else if crate::decoder::spec_decode_common(fetched(m)) is None {
        Some(Err(EmuError::InvalidInstruction(fetched(m)[0])))
    } else {
        match spec_step(m) {
            Some((m1, ExecRet::Halt)) => Some(Ok(m1)),
            Some((m1, ExecRet::Continue)) => if n > 0 {
                run_result(m1, (n - 1) as nat)
            } else {
                Some(Err(EmuError::StepLimit))
            },
            _ => None,
        }
    }
}

/// A run result, when known, is what the run gives: the machine after the
/// `halt`, or the error.
pub open spec fn ran_as(
    expected: Option<Result<Machine, EmuError>>,
    r: Result<(), EmuError>,
    post: Machine,
) -> bool {
    match expected {
        Some(Ok(m)) => r is Ok && post == m,
        Some(Err(e)) => r == Err::<(), EmuError>(e),
        None => true,
    }
}

/// One step of a run whose result is known keeps the result known: a
/// failed step is the run's error; a `halt` ends it; otherwise the rest of
/// the run, with one instruction fewer, comes to the same.
proof fn lemma_run_step(pre: Machine, n: nat, r: Result<ExecRet, EmuError>, post: Machine, pw: bool)
    requires
        stepped(pre, false, r, post, pw),
        run_result(pre, n) is Some,
    ensures
        r matches Err(e) ==> run_result(pre, n) == Some(Err::<Machine, EmuError>(e)),
        r == Ok::<ExecRet, EmuError>(ExecRet::Halt) ==> run_result(pre, n) == Some(
            Ok::<Machine, EmuError>(post),
        ),
        r is Ok ==> r == Ok::<ExecRet, EmuError>(ExecRet::Halt) || r == Ok::<ExecRet, EmuError>(
            ExecRet::Continue,
        ),
        r == Ok::<ExecRet, EmuError>(ExecRet::Continue) ==> !pw && (if n > 0 {
            run_result(pre, n) == run_result(post, (n - 1) as nat)
        } else {
            run_result(pre, n) == Some(Err::<Machine, EmuError>(EmuError::StepLimit))
        }),
{
    reveal(stepped);
}

/// Decoding yields branches with a resolved offset.
pub proof fn lemma_decoded_branch(ws: Seq<u16>)
    requires
        ws.len() >= 1,
    ensures
        crate::decoder::spec_decode_common(ws) matches Some(Ins::Branch(b)) ==> b.target is Offset,
{
}

/// A word stored in memory reads back unchanged.
pub proof fn lemma_mem_word_write_read(mem: Seq<u8>, a: int, v: u16)
    requires
        0 <= a,
        a + 1 < mem.len(),
    ensures
        mem_word(mem_with_word(mem, a, v), a) == v,
{
}

/// A word written to a location of RAM or to a register reads back
/// unchanged, and the write leaves the status word alone.
pub proof fn lemma_write_read_loc(m: Machine, loc: ResolvedOperand, v: u16)
    requires
        m.mem.len() == 0x10000,
        m.regs.len() == 8,
    ensures
        write_loc(m, loc, Size::Word, v) matches Some(m1) ==> read_loc(m1, loc, Size::Word)
            == Some(v) && m1.status == m.status,
{
}

/// A `jsr` whose subroutine returns at once (`rts` with the same linkage
/// register, other than the stack pointer) comes back to the address after
/// the `jsr`, with the linkage register and the stack pointer as they were.
pub proof fn lemma_jsr_rts(m: Machine, i: JsrIns)
    requires
        m.mem.len() == 0x10000,
        m.regs.len() == 8,
        i.reg != Reg::SP,
    ensures
        spec_exec_jsr(m, i) matches Some(mj) ==> spec_jump_target(m, i.dst) matches Some((m1, _))
            && spec_exec_rts(mj, RtsIns { op: RtsOpcode::Rts, reg: i.reg }) matches Some(mr)
            && reg_of(mr, Reg::PC) == reg_of(m1, Reg::PC) && reg_of(mr, i.reg) == reg_of(m1, i.reg)
            && reg_of(mr, Reg::SP) == reg_of(m1, Reg::SP),
{
    if let Some(mj) = spec_exec_jsr(m, i) {
        let (m1, target) = spec_jump_target(m, i.dst)->0;
        let sp = reg_of(m1, Reg::SP);
        let rv = reg_of(m1, i.reg);
        let m2 = spec_push(m1, rv)->0;
        lemma_push_pop(m1, rv);
        let m3 = put_reg(m2, i.reg, reg_of(m2, Reg::PC))->0;
        assert(mj == put_reg(m3, Reg::PC, target)->0);
        assert(reg_of(mj, Reg::SP) == sp - 2);
        assert(mj.mem == m2.mem);
        let rts = RtsIns { op: RtsOpcode::Rts, reg: i.reg };
        let ma = put_reg(mj, Reg::PC, reg_of(mj, i.reg))->0;
        assert(ma.mem == m2.mem);
        assert(reg_of(ma, Reg::SP) == sp - 2);
        assert(spec_pop(m2) == Some((Machine { mem: m2.mem, ..m1 }, rv)));
        assert(read_loc(ma, ResolvedOperand::Mem((sp - 2) as u16), Size::Word) == read_loc(
            m2,
            ResolvedOperand::Mem((sp - 2) as u16),
            Size::Word,
        ));
    }
}

/// Pushing a word and popping it again gives the word back and restores the
/// stack pointer; only the memory below the old stack pointer changed.
pub proof fn lemma_push_pop(m: Machine, v: u16)
    requires
        m.mem.len() == 0x10000,
        m.regs.len() == 8,
    ensures
        spec_push(m, v) matches Some(m1) ==> spec_pop(m1) == Some(
            (Machine { mem: m1.mem, ..m }, v),
        ),
{
    if let Some(m1) = spec_push(m, v) {
        let sp = reg_of(m, Reg::SP);
        assert(m1.regs == m.regs.update(6, (sp - 2) as u16));
        assert(m1.regs.update(6, sp).update(6, sp) =~= m.regs);
        assert(m1.regs.update(6, sp) =~= m.regs);
    }
}

/// Taking an interrupt and then returning from it at once (`rti`) gives
/// back the PC, the status word and the stack pointer of before.
pub proof fn lemma_interrupt_rti(m: Machine, vector: u16)
    requires
        m.mem.len() == 0x10000,
        m.regs.len() == 8,
    ensures
        spec_interrupt(m, vector) matches Some(m1) ==> spec_rti(m1) matches Some(m2) && m2.regs
            == m.regs && m2.status == m.status,
{
    if let Some(m1) = spec_interrupt(m, vector) {
        let pa = spec_push(m, m.status)->Some_0;
        let pb = spec_push(pa, reg_of(pa, Reg::PC))->Some_0;
        lemma_push_pop(m, m.status);
        lemma_push_pop(pa, reg_of(pa, Reg::PC));
        let sp = reg_of(m, Reg::SP);
        assert(reg_of(pb, Reg::SP) == sp - 4);
        assert(reg_of(m1, Reg::SP) == sp - 4);
        // the two words popped are those pushed
        assert(m1.mem == pb.mem);
        assert(spec_pop(m1) == Some((Machine { regs: m1.regs.update(6, (sp - 2) as u16), ..m1 }, reg_of(m, Reg::PC))));
        let q = Machine { regs: m1.regs.update(6, (sp - 2) as u16), ..m1 };
        assert(spec_pop(q) == Some((Machine { regs: q.regs.update(6, sp), ..q }, m.status)));
        assert(m1.regs.update(6, (sp - 2) as u16).update(6, sp).update(7, reg_of(m, Reg::PC)) =~= m.regs);
    }
}

/// Replacing the condition codes keeps the bits above them.
proof fn lemma_nzvc_high(raw: u16, n: bool, z: bool, v: bool, c: bool)
    ensures
        with_nzvc(raw, n, z, v, c) / 16 == raw / 16,
{
    let low: int = with_nzvc(0, n, z, v, c) as int;
    assert(0 <= low < 16);
    assert(((raw / 16) * 16 + low) / 16 == raw / 16) by (nonlinear_arith)
        requires
            0 <= low < 16,
            0 <= raw,
    ;
}

/// The condition codes of a status word whose four codes were replaced
/// read back as they were set.
proof fn lemma_nzvc_read(raw: u16, n: bool, z: bool, v: bool, c: bool)
    ensures
        spec_negative(with_nzvc(raw, n, z, v, c)) == n,
        spec_zero(with_nzvc(raw, n, z, v, c)) == z,
        spec_overflow(with_nzvc(raw, n, z, v, c)) == v,
        spec_carry(with_nzvc(raw, n, z, v, c)) == c,
{
    let hi: int = (raw / 16) as int;
    assert(0 <= hi * 16 <= 65520) by (nonlinear_arith)
        requires
            hi == raw as int / 16,
            0 <= raw <= 65535,
    ;
    let low: int = with_nzvc(0, n, z, v, c) as int;
    let w: int = with_nzvc(raw, n, z, v, c) as int;
    assert(w == hi * 16 + low);
    assert(w % 2 == low % 2 && (w / 2) % 2 == (low / 2) % 2 && (w / 4) % 2 == (low / 4) % 2 && (w
        / 8) % 2 == (low / 8) % 2) by (nonlinear_arith)
        requires
            w == hi * 16 + low,
            0 <= low < 16,
            hi >= 0,
    ;
}

/// After `cmp src, dst` (at either width) the conditional branches read the
/// comparison: `beq` and `bne` whether the two are equal, `bcs` (`blo`),
/// `bcc` (`bhis`), `bhi` and `blos` their order as unsigned numbers,
/// `blt`, `bge`, `bgt` and `ble` their order as two's-complement numbers,
/// `bvs` and `bvc` whether the two's-complement difference overflows, and
/// `bmi` and `bpl` the sign of the difference at the width.
pub proof fn lemma_compare_then_branch(
    op: DoubleOperandOpcode,
    size: Size,
    src: u16,
    dst: u16,
    status: u16,
)
    requires
        op == DoubleOperandOpcode::Cmp || op == DoubleOperandOpcode::CmpB,
        size == double_op_size(op),
        src < size.modulus(),
        dst < size.modulus(),
    ensures
        ({
            let o = spec_double_op(op, size, src, dst, spec_carry(status));
            let s2 = with_nzvc(status, o.n, o.z, o.v, o.c);
            let a = crate::emulator::alu::signed(src as int, size);
            let b = crate::emulator::alu::signed(dst as int, size);
            &&& branch_taken(BranchOpcode::Beq, s2) == (src == dst)
            &&& branch_taken(BranchOpcode::Bne, s2) == (src != dst)
            &&& branch_taken(BranchOpcode::Bcs, s2) == (src < dst)
            &&& branch_taken(BranchOpcode::Bcc, s2) == (src >= dst)
            &&& branch_taken(BranchOpcode::Bhi, s2) == (src > dst)
            &&& branch_taken(BranchOpcode::Blos, s2) == (src <= dst)
            &&& branch_taken(BranchOpcode::Blt, s2) == (a < b)
            &&& branch_taken(BranchOpcode::Bge, s2) == (a >= b)
            &&& branch_taken(BranchOpcode::Bgt, s2) == (a > b)
            &&& branch_taken(BranchOpcode::Ble, s2) == (a <= b)
            &&& branch_taken(BranchOpcode::Br, s2)
            &&& branch_taken(BranchOpcode::Bvs, s2) == !(-size.half() <= a - b < size.half())
            &&& branch_taken(BranchOpcode::Bvc, s2) == (-size.half() <= a - b < size.half())
            &&& branch_taken(BranchOpcode::Bmi, s2) == (crate::emulator::alu::signed(
                src - dst,
                size,
            ) < 0)
            &&& branch_taken(BranchOpcode::Bpl, s2) == (crate::emulator::alu::signed(
                src - dst,
                size,
            ) >= 0)
        }),
{
    let o = spec_double_op(op, size, src, dst, spec_carry(status));
    crate::emulator::alu::lemma_compare_orders(op, size, src, dst, spec_carry(status));
    lemma_nzvc_read(status, o.n, o.z, o.v, o.c);
    if size == Size::Byte {
        assert(src == dst <==> crate::emulator::alu::signed(src as int, size)
            == crate::emulator::alu::signed(dst as int, size));
    } else {
        assert(src == dst <==> crate::emulator::alu::signed(src as int, size)
            == crate::emulator::alu::signed(dst as int, size));
    }
}

/// A word instruction between two registers does what its name says to the
/// destination register: `mov` copies the source, `add` puts the sum and
/// `sub` the difference (destination less source) modulo 2^16, `bis` the
/// bits set in either, `bic` the destination's bits not set in the source;
/// `cmp` and `bit` change no register. Memory stays as it was.
#[verifier::spinoff_prover]
pub proof fn lemma_double_registers(m: Machine, i: DoubleOperandIns)
    requires
        m.regs.len() == 8,
        i.src.mode == AddrMode::Gen,
        i.dst.mode == AddrMode::Gen,
        crate::emulator::alu::double_op_size(i.op) == Size::Word,
    ensures
        spec_exec_double(m, i) matches Some(m2) ==> ({
            let a = reg_of(m, i.src.reg);
            let b = reg_of(m, i.dst.reg);
            &&& m2.mem == m.mem
            &&& i.op == DoubleOperandOpcode::Mov ==> reg_of(m2, i.dst.reg) == a
            &&& i.op == DoubleOperandOpcode::Add ==> reg_of(m2, i.dst.reg) as int == (a + b) % 65536
            &&& i.op == DoubleOperandOpcode::Sub ==> (reg_of(m2, i.dst.reg) + a) as int % 65536 == b
            &&& i.op == DoubleOperandOpcode::Bis ==> reg_of(m2, i.dst.reg) == a | b
            &&& i.op == DoubleOperandOpcode::Bic ==> reg_of(m2, i.dst.reg) == b & !a
            &&& (i.op == DoubleOperandOpcode::Cmp || i.op == DoubleOperandOpcode::Bit) ==> m2.regs
                == m.regs
        }),
{
    if let Some(m2) = spec_exec_double(m, i) {
        let a = reg_of(m, i.src.reg);
        let b = reg_of(m, i.dst.reg);
        assert(spec_resolve(m, AddrMode::Gen, i.src.reg, Size::Word) == Some(
            (m, ResolvedOperand::Reg(i.src.reg)),
        ));
        assert(read_loc(m, ResolvedOperand::Reg(i.src.reg), Size::Word) == Some(a));
        assert(read_loc(m, ResolvedOperand::Reg(i.dst.reg), Size::Word) == Some(b));
        crate::emulator::alu::lemma_subtract_orders(a, b, spec_carry(m.status));
        crate::emulator::alu::lemma_add_sum(a, b, spec_carry(m.status));
    }
}

/// A single-operand instruction changes only the condition codes among the
/// status bits, and no register but its operand's register and the PC; on
/// a register operand it leaves memory and the PC (unless that is the
/// operand) as they were too.
#[verifier::spinoff_prover]
pub proof fn lemma_single_register(m: Machine, i: SingleOperandIns)
    requires
        m.regs.len() == 8,
    ensures
        spec_exec_single(m, i) matches Some(m2) ==> m2.regs.len() == 8 && m2.status / 16
            == m.status / 16 && forall|k: int|
            0 <= k < 8 && k != i.dst.reg.spec_code() && k != 7 ==> #[trigger] m2.regs[k]
                == m.regs[k],
        i.dst.mode == AddrMode::Gen ==> (spec_exec_single(m, i) matches Some(m2) ==> m2.mem == m.mem
            && forall|k: int|
            0 <= k < 8 && k != i.dst.reg.spec_code() ==> #[trigger] m2.regs[k] == m.regs[k]),
{
    if let Some(m2) = spec_exec_single(m, i) {
        let r = i.dst.reg;
        let size = single_op_size(i.op);
        let (m1, loc) = spec_resolve(m, i.dst.mode, r, Size::Word)->0;
        assert(m1.regs.len() == 8 && m1.status == m.status);
        assert(forall|k: int| 0 <= k < 8 && k != r.spec_code() && k != 7 ==> #[trigger] m1.regs[k] == m.regs[k]);
        let v: u16 = if i.op == SingleOperandOpcode::Clr || i.op == SingleOperandOpcode::ClrB {
            0u16
        } else {
            read_loc(m1, loc, size)->0
        };
        let out = spec_single_op(i.op, size, v as int, spec_carry(m1.status));
        let w = if single_op_writes(i.op) {
            write_loc(m1, loc, size, out.res)
        } else {
            Some(m1)
        };
        let mw = w->0;
        assert(m2 == with_flags(mw, out.n, out.z, out.v, out.c));
        assert(mw.status == m.status && mw.regs.len() == 8);
        assert(forall|k: int| 0 <= k < 8 && k != r.spec_code() && k != 7 ==> #[trigger] mw.regs[k] == m.regs[k]);
        if i.dst.mode == AddrMode::Gen {
            assert(m1 == m);
            assert(mw.mem == m.mem);
            assert(forall|k: int| 0 <= k < 8 && k != r.spec_code() ==> #[trigger] mw.regs[k] == m.regs[k]);
        }
        lemma_nzvc_high(m.status, out.n, out.z, out.v, out.c);
    }
}

/// The device of the first attachment from `i` on at address `addr`.
pub open spec fn find_from(atts: Seq<Attachment>, addr: u16, i: int) -> Option<usize>
    decreases atts.len() - i,
{
    if i < 0 || i >= atts.len() {
        None
    } else if atts[i].addr == addr {
        Some(atts[i].device)
    } else {
        find_from(atts, addr, i + 1)
    }
}

/// `post` is `pre` with device `d` changed (in any way) and the others kept.
pub open spec fn only_device_changed(pre: Seq<Device>, d: int, post: Seq<Device>) -> bool {
    post.len() == pre.len() && post == pre.update(d, post[d])
}

/// The interrupt picked after device `d` requested `t`: a request replaces
/// the one picked so far only with a strictly higher priority.
pub open spec fn pick(best: Option<(usize, Interrupt)>, d: usize, t: Option<Interrupt>) -> Option<
    (usize, Interrupt),
> {
    match t {
        Some(inter) => match best {
            Some((_, b)) => if inter.prio > b.prio {
                Some((d, inter))
            } else {
                best
            },
            None => Some((d, inter)),
        },
        None => best,
    }
}

/// Ticking the devices of attachments `i` onwards, in order, from devices
/// `devs` with `best` picked so far: the devices after, and the device and
/// interrupt picked, or the first error of a device.
pub open spec fn tick_from(
    atts: Seq<Attachment>,
    devs: Seq<Device>,
    i: int,
    best: Option<(usize, Interrupt)>,
) -> (Seq<Device>, Result<Option<(usize, Interrupt)>, EmuError>)
    decreases atts.len() - i,
{
    if i < 0 || i >= atts.len() {
        (devs, Ok(best))
    } else {
        let d = atts[i].device;
        let (nd, r) = device_tick(devs[d as int]);
        let devs1 = devs.update(d as int, nd);
        match r {
            Err(e) => (devs1, Err(e)),
            Ok(t) => tick_from(atts, devs1, i + 1, pick(best, d, t)),
        }
    }
}

/// The emulated machine: its state, the attached devices and the addresses
/// they answer at, and whether it waits for an interrupt.
pub struct Emulator {
    state: EmulatorState,
    devices: Vec<Device>,
    attachments: Vec<Attachment>,
    waiting: bool,
}

impl Emulator {
    /// The state is whole and every attachment names an attached device.
    pub closed spec fn wf(&self) -> bool {
        &&& self.state.wf()
        &&& forall|i: int|
            0 <= i < self.attachments@.len() ==> #[trigger] self.attachments@[i].device
                < self.devices@.len()
    }

    pub closed spec fn spec_state(&self) -> EmulatorState {
        self.state
    }

    /// Registers, memory and status word.
    pub open spec fn machine(&self) -> Machine {
        self.spec_state().view()
    }

    pub closed spec fn devices(&self) -> Seq<Device> {
        self.devices@
    }

    pub closed spec fn attachments(&self) -> Seq<Attachment> {
        self.attachments@
    }

    pub closed spec fn is_waiting(&self) -> bool {
        self.waiting
    }

    /// Whether a device answers at `addr`.
    pub open spec fn handles(&self, addr: u16) -> bool {
        exists|i: int| 0 <= i < self.attachments().len() && #[trigger] self.attachments()[i].addr == addr
    }

    /// The addresses in use.
    pub open spec fn taken(&self) -> Set<u16> {
        Set::new(|a: u16| self.handles(a))
    }

    /// Whether the only devices attached are status-word registers, which
    /// never request an interrupt.
    pub open spec fn only_status(&self) -> bool {
        forall|k: int| 0 <= k < self.devices().len() ==> #[trigger] self.devices()[k] is Status
    }

    /// `self` is `pre` after an operation that leaves the devices attached
    /// as they were and the instruction count and waiting state alone.
    pub open spec fn same_setup(&self, pre: &Emulator) -> bool {
        &&& self.wf()
        &&& pre.only_status() ==> self.only_status()
        &&& self.attachments() == pre.attachments()
        &&& self.devices().len() == pre.devices().len()
        &&& self.is_waiting() == pre.is_waiting()
        &&& self.spec_state().spec_num_ins() == pre.spec_state().spec_num_ins()
    }

    /// A machine with cleared memory and registers and the processor status
    /// word attached at its address.
    pub fn new() -> (r: Emulator)
        ensures
            r.wf(),
            r.machine().regs == Seq::new(8, |i: int| 0u16),
            r.machine().mem == Seq::new(0x10000, |i: int| 0u8),
            r.machine().status == 0,
            r.spec_state().spec_num_ins() == 0,
            r.devices() == seq![Device::Status(StatusAccess {  })],
            r.attachments() == seq![Attachment { addr: StatusAccess::ADDR, device: 0 }],
            !r.is_waiting(),
    {
        let mut emu = Emulator {
            state: EmulatorState::new(),
            devices: Vec::new(),
            attachments: Vec::new(),
            waiting: false,
        };
        proof {
            assert(!emu.handles(StatusAccess::ADDR));
            assert(!emu.taken().contains(StatusAccess::ADDR));
            reveal_with_fuel(first_attach_error, 2);
        }
        let res = emu.try_set_mmio_handler(Device::Status(StatusAccess::new()));
        emu
    }

    /// The device answering at `addr`, by its index, if any.
    fn find_device(&self, addr: u16) -> (r: Option<usize>)
        requires
            self.wf(),
        ensures
            r is Some <==> self.handles(addr),
            r matches Some(d) ==> d < self.devices().len(),
            r == find_from(self.attachments(), addr, 0),
    {
        let mut i: usize = 0;
        while i < self.attachments.len()
            invariant
                self.wf(),
                i <= self.attachments@.len(),
                forall|j: int| 0 <= j < i ==> #[trigger] self.attachments@[j].addr != addr,
                find_from(self.attachments(), addr, 0) == find_from(self.attachments(), addr, i as int),
            decreases self.attachments@.len() - i,
        {
            if self.attachments[i].addr == addr {
                let d = self.attachments[i].device;
                assert(self.attachments()[i as int].addr == addr);
                return Some(d);
            }
            i = i + 1;
        }
        None
    }

    /// Reads a byte: from memory below the I/O page, else from the device
    /// answering there; an address nothing answers at, or a read the device
    /// refuses, gives the error.
    pub fn try_mem_read_byte(&mut self, addr: u16) -> (r: Result<u8, EmuError>)
        requires
            old(self).wf(),
        ensures
            final(self).same_setup(old(self)),
            final(self).machine().regs == old(self).machine().regs,
            final(self).machine().mem == old(self).machine().mem,
            addr < MMIO_START ==> r == Ok::<u8, EmuError>(old(self).machine().mem[addr as int])
                && final(self).machine() == old(self).machine() && final(self).devices()
                == old(self).devices(),
            addr >= MMIO_START && !old(self).handles(addr) ==> r == Err::<u8, EmuError>(
                EmuError::InvalidMmio(addr),
            ) && final(self).machine() == old(self).machine() && final(self).devices()
                == old(self).devices(),
            addr >= MMIO_START && old(self).handles(addr) ==> ({
                let d = find_from(old(self).attachments(), addr, 0)->0 as int;
                &&& final(self).spec_state() == old(self).spec_state()
                &&& only_device_changed(old(self).devices(), d, final(self).devices())
                &&& device_read_byte(
                    old(self).devices()[d],
                    old(self).spec_state(),
                    addr,
                    final(self).devices()[d],
                    r,
                )
            }),
    {
        if addr < MMIO_START {
            return Ok(self.state.mem_read_byte(addr));
        }
        match self.find_device(addr) {
            Some(d) => self.devices[d].read_byte(&mut self.state, addr),
            None => Err(EmuError::InvalidMmio(addr)),
        }
    }

    /// Writes a byte: to memory below the I/O page, else to the device
    /// answering there; a write that cannot be done gives the error.
    pub fn try_mem_write_byte(&mut self, addr: u16, val: u8) -> (r: Result<(), EmuError>)
        requires
            old(self).wf(),
        ensures
            final(self).same_setup(old(self)),
            final(self).machine().regs == old(self).machine().regs,
            addr >= MMIO_START ==> final(self).machine().mem == old(self).machine().mem,
            addr < MMIO_START ==> r is Ok && final(self).machine() == (Machine {
                mem: old(self).machine().mem.update(addr as int, val),
                ..old(self).machine()
            }) && final(self).devices() == old(self).devices(),
            addr >= MMIO_START && !old(self).handles(addr) ==> r == Err::<(), EmuError>(
                EmuError::InvalidMmio(addr),
            ) && final(self).machine() == old(self).machine() && final(self).devices()
                == old(self).devices(),
            addr >= MMIO_START && old(self).handles(addr) ==> ({
                let d = find_from(old(self).attachments(), addr, 0)->0 as int;
                &&& only_device_changed(old(self).devices(), d, final(self).devices())
                &&& device_write_byte(
                    old(self).devices()[d],
                    old(self).spec_state(),
                    addr,
                    val,
                    final(self).devices()[d],
                    final(self).spec_state(),
                    r,
                )
            }),
    {
        if addr < MMIO_START {
            self.state.mem_write_byte(addr, val);
            return Ok(());
        }
        match self.find_device(addr) {
            Some(d) => self.devices[d].write_byte(&mut self.state, addr, val),
            None => Err(EmuError::InvalidMmio(addr)),
        }
    }

    /// Reads a word at an even address: from memory below the I/O page, else
    /// from the device answering there; a read that cannot be done gives
    /// the error.
    pub fn try_mem_read_word(&mut self, addr: u16) -> (r: Result<u16, EmuError>)
        requires
            old(self).wf(),
        ensures
            final(self).same_setup(old(self)),
            final(self).machine().regs == old(self).machine().regs,
            final(self).machine().mem == old(self).machine().mem,
            addr % 2 == 1 ==> r == Err::<u16, EmuError>(EmuError::Misaligned(addr))
                && final(self).machine() == old(self).machine() && final(self).devices()
                == old(self).devices(),
            addr % 2 == 0 && addr < MMIO_START ==> r == Ok::<u16, EmuError>(
                crate::emulator::emulator_state::mem_word(old(self).machine().mem, addr as int),
            ) && final(self).machine() == old(self).machine() && final(self).devices()
                == old(self).devices(),
            addr % 2 == 0 && addr >= MMIO_START && !old(self).handles(addr) ==> r == Err::<
                u16,
                EmuError,
            >(EmuError::InvalidMmio(addr)) && final(self).machine() == old(self).machine()
                && final(self).devices() == old(self).devices(),
            addr % 2 == 0 && addr >= MMIO_START && old(self).handles(addr) ==> ({
                let d = find_from(old(self).attachments(), addr, 0)->0 as int;
                &&& final(self).spec_state() == old(self).spec_state()
                &&& only_device_changed(old(self).devices(), d, final(self).devices())
                &&& device_read_word(
                    old(self).devices()[d],
                    old(self).spec_state(),
                    addr,
                    final(self).devices()[d],
                    r,
                )
            }),
    {
        if addr % 2 != 0 {
            return Err(EmuError::Misaligned(addr));
        }
        if addr < MMIO_START {
            return Ok(self.state.mem_read_word(addr));
        }
        match self.find_device(addr) {
            Some(d) => self.devices[d].read_word(&mut self.state, addr),
            None => Err(EmuError::InvalidMmio(addr)),
        }
    }

    /// Writes a word at an even address: to memory below the I/O page, else
    /// to the device answering there; a write that cannot be done gives the
    /// error.
    pub fn try_mem_write_word(&mut self, addr: u16, val: u16) -> (r: Result<(), EmuError>)
        requires
            old(self).wf(),
        ensures
            final(self).same_setup(old(self)),
            final(self).machine().regs == old(self).machine().regs,
            addr % 2 == 1 || addr >= MMIO_START ==> final(self).machine().mem == old(self).machine().mem,
            addr % 2 == 1 ==> r == Err::<(), EmuError>(EmuError::Misaligned(addr))
                && final(self).machine() == old(self).machine() && final(self).devices()
                == old(self).devices(),
            addr % 2 == 0 && addr < MMIO_START ==> r is Ok && final(self).machine() == (Machine {
                mem: crate::emulator::emulator_state::mem_with_word(
                    old(self).machine().mem,
                    addr as int,
                    val,
                ),
                ..old(self).machine()
            }) && final(self).devices() == old(self).devices(),
            addr % 2 == 0 && addr >= MMIO_START && !old(self).handles(addr) ==> r == Err::<
                (),
                EmuError,
            >(EmuError::InvalidMmio(addr)) && final(self).machine() == old(self).machine()
                && final(self).devices() == old(self).devices(),
            addr % 2 == 0 && addr >= MMIO_START && old(self).handles(addr) ==> ({
                let d = find_from(old(self).attachments(), addr, 0)->0 as int;
                &&& only_device_changed(old(self).devices(), d, final(self).devices())
                &&& device_write_word(
                    old(self).devices()[d],
                    old(self).spec_state(),
                    addr,
                    val,
                    final(self).devices()[d],
                    final(self).spec_state(),
                    r,
                )
            }),
    {
        if addr % 2 != 0 {
            return Err(EmuError::Misaligned(addr));
        }
        if addr < MMIO_START {
            self.state.mem_write_word(addr, val);
            return Ok(());
        }
        match self.find_device(addr) {
            Some(d) => self.devices[d].write_word(&mut self.state, addr, val),
            None => Err(EmuError::InvalidMmio(addr)),
        }
    }

    /// Attaches `device` at the given addresses. Refused, with nothing
    /// attached, at the first address that is below the I/O page, odd, or
    /// already in use.
    pub fn try_set_mmio_handler_for(&mut self, device: Device, addrs: &[u16]) -> (r: Result<
        (),
        EmuError,
    >)
        requires
            old(self).wf(),
        ensures
            final(self).wf(),
            final(self).machine() == old(self).machine(),
            final(self).is_waiting() == old(self).is_waiting(),
            final(self).spec_state().spec_num_ins() == old(self).spec_state().spec_num_ins(),
            first_attach_error(old(self).taken(), addrs@) matches Some(e) ==> r
                == Err::<(), EmuError>(e) && final(self).devices() == old(self).devices()
                && final(self).attachments() == old(self).attachments(),
            first_attach_error(old(self).taken(), addrs@) is None ==> r is Ok
                && final(self).devices() == old(self).devices().push(device)
                && final(self).attachments() == old(self).attachments() + addrs@.map_values(
                |a: u16| Attachment { addr: a, device: old(self).devices().len() as usize },
            ),
    {
        let ghost taken0 = self.taken();
        proof {
            assert(addrs@.take(0).to_set() =~= Set::<u16>::empty());
            assert(taken0.union(Set::<u16>::empty()) =~= taken0);
            assert(addrs@.skip(0) =~= addrs@);
        }
        let mut i: usize = 0;
        while i < addrs.len()
            invariant
                self.wf(),
                self == old(self),
                i <= addrs@.len(),
                taken0 == self.taken(),
                first_attach_error(taken0, addrs@) == first_attach_error(
                    taken0.union(addrs@.take(i as int).to_set()),
                    addrs@.skip(i as int),
                ),
            decreases addrs@.len() - i,
        {
            let a = addrs[i];
            let ghost taken_i = taken0.union(addrs@.take(i as int).to_set());
            proof {
                assert(addrs@.skip(i as int)[0] == a);
                assert(addrs@.skip(i as int).drop_first() =~= addrs@.skip(i + 1));
                assert(addrs@.take(i + 1) =~= addrs@.take(i as int).push(a));
                addrs@.take(i as int).lemma_push_to_set_commute(a);
                assert(taken_i.insert(a) =~= taken0.union(addrs@.take(i + 1).to_set()));
            }
            if a < MMIO_START {
                return Err(EmuError::InvalidMmio(a));
            }
            if a % 2 == 1 {
                return Err(EmuError::Misaligned(a));
            }
            let mut dup = self.find_device(a).is_some();
            let mut j: usize = 0;
            while j < i
                invariant
                    i < addrs@.len(),
                    j <= i,
                    dup == (self.handles(a) || exists|k: int| 0 <= k < j && addrs@[k] == a),
                decreases i - j,
            {
                if addrs[j] == a {
                    dup = true;
                }
                j = j + 1;
            }
            proof {
                assert(dup == taken_i.contains(a)) by {
                    if exists|k: int| 0 <= k < i && addrs@[k] == a {
                        let k = choose|k: int| 0 <= k < i && addrs@[k] == a;
                        assert(addrs@.take(i as int)[k] == a);
                        assert(addrs@.take(i as int).to_set().contains(a));
                    }
                    if addrs@.take(i as int).to_set().contains(a) {
                        assert(addrs@.take(i as int).contains(a));
                        let k = choose|k: int| 0 <= k < i && addrs@.take(i as int)[k] == a;
                        assert(addrs@[k] == a);
                    }
                }
            }
            if dup {
                return Err(EmuError::DuplicateHandler(a));
            }
            i = i + 1;
        }
        proof {
            assert(addrs@.skip(i as int) =~= Seq::<u16>::empty());
        }
        let idx = self.devices.len();
        self.devices.push(device);
        let ghost att0 = self.attachments@;
        let mut k: usize = 0;
        while k < addrs.len()
            invariant
                k <= addrs@.len(),
                idx == old(self).devices().len(),
                self.devices@ == old(self).devices@.push(device),
                self.state == old(self).state,
                self.waiting == old(self).waiting,
                self.state.wf(),
                forall|i: int|
                    0 <= i < att0.len() ==> #[trigger] att0[i].device < idx,
                self.attachments@ == att0 + addrs@.take(k as int).map_values(
                    |a: u16| Attachment { addr: a, device: idx },
                ),
            decreases addrs@.len() - k,
        {
            self.attachments.push(Attachment { addr: addrs[k], device: idx });
            k = k + 1;
            proof {
                assert(addrs@.take(k as int).map_values(|a: u16| Attachment { addr: a, device: idx })
                    =~= addrs@.take(k - 1).map_values(
                    |a: u16| Attachment { addr: a, device: idx },
                ).push(Attachment { addr: addrs@[k - 1], device: idx }));
            }
        }
        proof {
            assert(addrs@.take(k as int) =~= addrs@);
            assert forall|i: int| 0 <= i < self.attachments@.len() implies #[trigger] self.attachments@[i].device < self.devices@.len() by {
                if i >= att0.len() {
                    assert(self.attachments@[i] == addrs@.map_values(|a: u16| Attachment { addr: a, device: idx })[i - att0.len()]);
                }
            }
        }
        Ok(())
    }

    /// Attaches `device` at the addresses it answers at by default, or gives
    /// why it cannot be.
    pub fn try_set_mmio_handler(&mut self, device: Device) -> (r: Result<(), EmuError>)
        requires
            old(self).wf(),
        ensures
            final(self).wf(),
            final(self).machine() == old(self).machine(),
            final(self).is_waiting() == old(self).is_waiting(),
            final(self).spec_state().spec_num_ins() == old(self).spec_state().spec_num_ins(),
            first_attach_error(old(self).taken(), device.spec_default_addrs()) matches Some(e)
                ==> r == Err::<(), EmuError>(e) && final(self).devices() == old(self).devices()
                && final(self).attachments() == old(self).attachments(),
            first_attach_error(old(self).taken(), device.spec_default_addrs()) is None ==> r is Ok
                && final(self).devices() == old(self).devices().push(device)
                && final(self).attachments() == old(self).attachments()
                + device.spec_default_addrs().map_values(
                |a: u16| Attachment { addr: a, device: old(self).devices().len() as usize },
            ),
    {
        let addrs = device.default_addrs();
        self.try_set_mmio_handler_for(device, addrs.as_slice())
    }
}

impl Emulator {
    /// The processor state.
    pub fn get_state(&self) -> (r: &EmulatorState)
        ensures
            *r == self.spec_state(),
    {
        &self.state
    }

    /// The processor state, to change; the machine stays well formed as long
    /// as the state does.
    pub fn get_state_mut(&mut self) -> (r: &mut EmulatorState)
        ensures
            *r == old(self).spec_state(),
            final(self).spec_state() == *final(r),
            final(self).devices() == old(self).devices(),
            final(self).attachments() == old(self).attachments(),
            final(self).is_waiting() == old(self).is_waiting(),
            old(self).wf() && final(r).wf() ==> final(self).wf(),
    {
        &mut self.state
    }

    /// The `k`-th attached device, counted from 0 in the order of attaching.
    pub fn device(&self, k: usize) -> (r: Option<&Device>)
        ensures
            k < self.devices().len() ==> r == Some(&self.devices()[k as int]),
            k >= self.devices().len() ==> r is None,
    {
        if k < self.devices.len() {
            Some(&self.devices[k])
        } else {
            None
        }
    }

    /// Takes the characters that the `k`-th device has printed so far, if it
    /// is a teleprinter or a teletype; any other device, or none, gives
    /// nothing and changes nothing.
    pub fn take_output(&mut self, k: usize) -> (r: Vec<u8>)
        ensures
            final(self).spec_state() == old(self).spec_state(),
            final(self).attachments() == old(self).attachments(),
            final(self).devices().len() == old(self).devices().len(),
            final(self).is_waiting() == old(self).is_waiting(),
            old(self).wf() ==> final(self).wf(),
            forall|j: int|
                0 <= j < old(self).devices().len() && j != k ==> #[trigger] final(self).devices()[j]
                    == old(self).devices()[j],
            k < old(self).devices().len() ==> match old(self).devices()[k as int] {
                Device::Teleprinter(t) => r@ == t.device.buf@ && final(self).devices()[k as int]
                    is Teleprinter && final(self).devices()[k as int]->Teleprinter_0.device.buf@
                    == Seq::<u8>::empty() && final(self).devices()[k as int]->Teleprinter_0.ready
                    == t.ready,
                Device::Teletype(t) => r@ == t.device.out_buf@ && final(self).devices()[k as int]
                    is Teletype && final(self).devices()[k as int]->Teletype_0.device.out_buf@
                    == Seq::<u8>::empty() && final(self).devices()[k as int]->Teletype_0.device.in_buf
                    == t.device.in_buf,
                _ => r@ == Seq::<u8>::empty() && final(self).devices()[k as int] == old(
                    self,
                ).devices()[k as int],
            },
            k >= old(self).devices().len() ==> r@ == Seq::<u8>::empty() && final(self).devices()
                == old(self).devices(),
    {
        if k >= self.devices.len() {
            return Vec::new();
        }
        match &mut self.devices[k] {
            Device::Teleprinter(t) => {
                let out = t.device.contents();
                let _ = t.device.take();
                out
            },
            Device::Teletype(t) => {
                let mut out: Vec<u8> = Vec::new();
                while !t.device.is_out_empty()
                    invariant
                        out@ + t.device.out_buf@ == old(self).devices()[k as int]->Teletype_0.device.out_buf@,
                        t.device.in_buf == old(self).devices()[k as int]->Teletype_0.device.in_buf,
                    decreases t.device.out_buf@.len(),
                {
                    match t.device.pop_output() {
                        Some(c) => out.push(c),
                        None => {},
                    }
                }
                out
            },
            _ => Vec::new(),
        }
    }

    /// Gives a typed character to the `k`-th device if it is a teletype, and
    /// says whether it was one.
    pub fn push_tty_input(&mut self, k: usize, c: u8) -> (r: bool)
        ensures
            final(self).spec_state() == old(self).spec_state(),
            final(self).attachments() == old(self).attachments(),
            final(self).devices().len() == old(self).devices().len(),
            final(self).is_waiting() == old(self).is_waiting(),
            old(self).wf() ==> final(self).wf(),
            forall|j: int|
                0 <= j < old(self).devices().len() && j != k ==> #[trigger] final(self).devices()[j]
                    == old(self).devices()[j],
            r == (k < old(self).devices().len() && old(self).devices()[k as int] is Teletype),
            r ==> final(self).devices()[k as int] is Teletype
                && final(self).devices()[k as int]->Teletype_0.device.in_buf@ == old(
                self,
            ).devices()[k as int]->Teletype_0.device.in_buf@.push(c),
            !r ==> final(self).devices() == old(self).devices(),
    {
        if k >= self.devices.len() {
            return false;
        }
        match &mut self.devices[k] {
            Device::Teletype(t) => {
                t.device.push_input(c);
                true
            },
            _ => false,
        }
    }

    /// The program counter.
    pub fn pc(&self) -> (r: u16)
        requires
            self.wf(),
        ensures
            r == reg_of(self.machine(), Reg::PC),
    {
        self.state.pc()
    }

    pub fn reg_read_word(&self, reg: Reg) -> (r: u16)
        requires
            self.wf(),
        ensures
            r == reg_of(self.machine(), reg),
    {
        self.state.reg_read_word(reg)
    }

    /// The low byte of a register.
    pub fn reg_read_byte(&self, reg: Reg) -> (r: u8)
        requires
            self.wf(),
        ensures
            r == reg_of(self.machine(), reg) % 256,
    {
        self.state.reg_read_byte(reg)
    }

    /// Writes a register; refused for a stack pointer below the vectors' end.
    pub fn try_reg_write_word(&mut self, reg: Reg, val: u16) -> (r: Result<(), EmuError>)
        requires
            old(self).wf(),
        ensures
            final(self).same_setup(old(self)),
            final(self).devices() == old(self).devices(),
            put_reg(old(self).machine(), reg, val) matches Some(m) ==> r is Ok
                && final(self).machine() == m,
            put_reg(old(self).machine(), reg, val) is None ==> r == Err::<(), EmuError>(
                EmuError::StackOverflow,
            ) && final(self).machine() == old(self).machine(),
    {
        self.state.try_reg_write_word(reg, val)
    }

    /// Replaces the low byte of a register; refused for a stack pointer
    /// below the vectors' end.
    pub fn try_reg_write_byte(&mut self, reg: Reg, val: u8) -> (r: Result<(), EmuError>)
        requires
            old(self).wf(),
        ensures
            final(self).same_setup(old(self)),
            final(self).devices() == old(self).devices(),
            write_loc(old(self).machine(), ResolvedOperand::Reg(reg), Size::Byte, val as u16) matches Some(m)
                ==> r is Ok && final(self).machine() == m,
            write_loc(old(self).machine(), ResolvedOperand::Reg(reg), Size::Byte, val as u16) is None
                ==> r == Err::<(), EmuError>(EmuError::StackOverflow) && final(self).machine()
                == old(self).machine(),
    {
        self.state.try_reg_write_byte(reg, val)
    }

    /// Copies `data` into memory from `start` on, byte by byte, through the
    /// devices where it reaches the I/O page. Refused, with nothing written,
    /// when it would run past the last address.
    pub fn load_image(&mut self, data: &[u8], start: u16) -> (r: Result<(), EmuError>)
        requires
            old(self).wf(),
        ensures
            final(self).same_setup(old(self)),
            final(self).machine().regs == old(self).machine().regs,
            start + data@.len() > 0xffff ==> r == Err::<(), EmuError>(EmuError::AddressOverflow)
                && final(self).machine() == old(self).machine() && final(self).devices()
                == old(self).devices(),
            start + data@.len() <= MMIO_START ==> r is Ok && final(self).machine() == (Machine {
                mem: mem_with_bytes(old(self).machine().mem, start as int, data@),
                ..old(self).machine()
            }) && final(self).devices() == old(self).devices(),
    {
        if data.len() > 0xffff || start as usize + data.len() > 0xffff {
            return Err(EmuError::AddressOverflow);
        }
        let ghost m0 = self.machine();
        let ghost d0 = self.devices();
        proof {
            self.state.lemma_wf_sizes();
            assert(mem_with_bytes(m0.mem, start as int, data@.take(0)) =~= m0.mem);
        }
        let mut i: usize = 0;
        while i < data.len()
            invariant
                m0 == old(self).machine(),
                d0 == old(self).devices(),
                m0.mem.len() == 0x10000,
                start + data@.len() <= 0xffff,
                i <= data@.len(),
                self.same_setup(old(self)),
                self.machine().regs == m0.regs,
                start + data@.len() <= MMIO_START ==> self.machine() == (Machine {
                    mem: mem_with_bytes(m0.mem, start as int, data@.take(i as int)),
                    ..m0
                }) && self.devices() == d0,
            decreases data@.len() - i,
        {
            let addr = start + i as u16;
            self.try_mem_write_byte(addr, data[i])?;
            i = i + 1;
            proof {
                if start + data@.len() <= MMIO_START {
                    assert(mem_with_bytes(m0.mem, start as int, data@.take(i as int)) =~= mem_with_bytes(
                        m0.mem,
                        start as int,
                        data@.take(i - 1),
                    ).update(addr as int, data@[i - 1]));
                }
            }
        }
        proof {
            assert(data@.take(i as int) =~= data@);
        }
        Ok(())
    }

    /// Loads the text of a program at address 0.
    pub fn load_aout(&mut self, aout: &crate::aout::Aout) -> (r: Result<(), EmuError>)
        requires
            old(self).wf(),
        ensures
            final(self).same_setup(old(self)),
            final(self).machine().regs == old(self).machine().regs,
            aout.text@.len() > 0xffff ==> r == Err::<(), EmuError>(EmuError::AddressOverflow)
                && final(self).machine() == old(self).machine(),
            aout.text@.len() <= MMIO_START ==> r is Ok && final(self).machine() == (Machine {
                mem: mem_with_bytes(old(self).machine().mem, 0, aout.text@),
                ..old(self).machine()
            }) && final(self).devices() == old(self).devices(),
    {
        self.load_image(aout.text.as_slice(), 0)
    }

    /// Moves a register for auto-increment or auto-decrement; returns the
    /// address the operand uses.
    fn exec_auto(&mut self, reg: Reg, inc: bool, size: Size) -> (r: Result<u16, EmuError>)
        requires
            old(self).wf(),
        ensures
            final(self).same_setup(old(self)),
            final(self).devices() == old(self).devices(),
            final(self).machine().mem == old(self).machine().mem,
            final(self).machine().status == old(self).machine().status,
            spec_auto(old(self).machine(), reg, inc, size) matches Some((m1, a)) ==> r == Ok::<
                u16,
                EmuError,
            >(a) && final(self).machine() == m1,
    {
        let step: u16 = if reg == Reg::PC || size == Size::Word { 2 } else { 1 };
        let val = self.state.reg_read_word(reg);
        let moved = if inc { val.wrapping_add(step) } else { val.wrapping_sub(step) };
        self.state.try_reg_write_word(reg, moved)?;
        Ok(if inc { val } else { moved })
    }

    /// Auto-increment or auto-decrement addressing, deferred or not.
    fn resolve_auto(&mut self, reg: Reg, inc: bool, deferred: bool, size: Size) -> (r: Result<
        ResolvedOperand,
        EmuError,
    >)
        requires
            old(self).wf(),
        ensures
            final(self).same_setup(old(self)),
            final(self).machine().mem == old(self).machine().mem,
            ({
                let mode = if inc {
                    if deferred {
                        AddrMode::AutoIncDef
                    } else {
                        AddrMode::AutoInc
                    }
                } else {
                    if deferred {
                        AddrMode::AutoDecDef
                    } else {
                        AddrMode::AutoDec
                    }
                };
                spec_resolve(old(self).machine(), mode, reg, size) matches Some((m1, loc)) ==> r
                    == Ok::<ResolvedOperand, EmuError>(loc) && final(self).machine() == m1
                    && final(self).devices() == old(self).devices()
            }),
    {
        if deferred {
            let a = self.exec_auto(reg, inc, Size::Word)?;
            let p = self.try_mem_read_word(a)?;
            Ok(ResolvedOperand::Mem(p))
        } else {
            let a = self.exec_auto(reg, inc, size)?;
            Ok(ResolvedOperand::Mem(a))
        }
    }

    /// Indexed addressing, deferred or not: the index word follows the
    /// instruction and the PC moves past it before the register is read.
    fn resolve_index(&mut self, reg: Reg, deferred: bool) -> (r: Result<ResolvedOperand, EmuError>)
        requires
            old(self).wf(),
        ensures
            final(self).same_setup(old(self)),
            final(self).machine().mem == old(self).machine().mem,
            ({
                let mode = if deferred {
                    AddrMode::IndexDef
                } else {
                    AddrMode::Index
                };
                spec_resolve(old(self).machine(), mode, reg, Size::Word) matches Some((m1, loc))
                    ==> r == Ok::<ResolvedOperand, EmuError>(loc) && final(self).machine() == m1
                    && final(self).devices() == old(self).devices()
            }),
    {
        let base = self.state.reg_read_word(reg);
        let ia = self.exec_auto(Reg::PC, true, Size::Word)?;
        let imm = self.try_mem_read_word(ia)?;
        let a = base.wrapping_add(imm);
        if deferred {
            let p = self.try_mem_read_word(a)?;
            Ok(ResolvedOperand::Mem(p))
        } else {
            Ok(ResolvedOperand::Mem(a))
        }
    }

    /// Carries out the addressing of an operand: the register or the memory
    /// address it names.
    fn resolve(&mut self, o: &Operand, size: Size) -> (r: Result<ResolvedOperand, EmuError>)
        requires
            old(self).wf(),
        ensures
            final(self).same_setup(old(self)),
            final(self).machine().mem == old(self).machine().mem,
            spec_resolve(old(self).machine(), o.mode, o.reg, size) matches Some((m1, loc)) ==> r
                == Ok::<ResolvedOperand, EmuError>(loc) && final(self).machine() == m1
                && final(self).devices() == old(self).devices(),
    {
        match o.mode {
            AddrMode::Gen => Ok(ResolvedOperand::Reg(o.reg)),
            AddrMode::Def => Ok(ResolvedOperand::Mem(self.state.reg_read_word(o.reg))),
            AddrMode::AutoInc => self.resolve_auto(o.reg, true, false, size),
            AddrMode::AutoDec => self.resolve_auto(o.reg, false, false, size),
            AddrMode::AutoIncDef => self.resolve_auto(o.reg, true, true, size),
            AddrMode::AutoDecDef => self.resolve_auto(o.reg, false, true, size),
            AddrMode::Index => self.resolve_index(o.reg, false),
            AddrMode::IndexDef => self.resolve_index(o.reg, true),
        }
    }

    /// Reads a resolved operand with the given width.
    fn read_resolved(&mut self, loc: ResolvedOperand, size: Size) -> (r: Result<u16, EmuError>)
        requires
            old(self).wf(),
        ensures
            final(self).same_setup(old(self)),
            final(self).machine().regs == old(self).machine().regs,
            final(self).machine().mem == old(self).machine().mem,
            size == Size::Byte ==> (r matches Ok(v) ==> v < 256),
            read_loc(old(self).machine(), loc, size) matches Some(v) ==> r == Ok::<u16, EmuError>(
                v,
            ) && final(self).machine() == old(self).machine() && final(self).devices() == old(self).devices(),
    {
        match loc {
            ResolvedOperand::Reg(r) => Ok(
                if size == Size::Word {
                    self.state.reg_read_word(r)
                } else {
                    self.state.reg_read_byte(r) as u16
                },
            ),
            ResolvedOperand::Mem(a) => if size == Size::Word {
                self.try_mem_read_word(a)
            } else {
                let b = self.try_mem_read_byte(a)?;
                Ok(b as u16)
            },
        }
    }

    /// Writes a resolved operand with the given width (a byte goes to the low
    /// half of a register).
    fn write_resolved(&mut self, loc: ResolvedOperand, size: Size, val: u16) -> (r: Result<
        (),
        EmuError,
    >)
        requires
            old(self).wf(),
        ensures
            final(self).same_setup(old(self)),
            write_loc(old(self).machine(), loc, size, val) matches Some(m1) ==> r is Ok
                && final(self).machine() == m1 && final(self).devices() == old(self).devices(),
    {
        match loc {
            ResolvedOperand::Reg(r) => if size == Size::Word {
                self.state.try_reg_write_word(r, val)
            } else {
                self.state.try_reg_write_byte(r, (val % 256) as u8)
            },
            ResolvedOperand::Mem(a) => if size == Size::Word {
                self.try_mem_write_word(a, val)
            } else {
                self.try_mem_write_byte(a, (val % 256) as u8)
            },
        }
    }
}

impl Emulator {
    /// Replaces the four condition codes.
    fn set_flags(&mut self, n: bool, z: bool, v: bool, c: bool)
        requires
            old(self).wf(),
        ensures
            final(self).same_setup(old(self)),
            final(self).devices() == old(self).devices(),
            final(self).machine() == with_flags(old(self).machine(), n, z, v, c),
    {
        self.state.get_status_mut().set_nzvc(n, z, v, c);
    }

    fn carry(&self) -> (r: bool)
        ensures
            r == spec_carry(self.machine().status),
    {
        self.state.get_status().get_carry()
    }

    fn exec_double_operand_ins(&mut self, ins: &DoubleOperandIns) -> (r: Result<(), EmuError>)
        requires
            old(self).wf(),
        ensures
            final(self).same_setup(old(self)),
            spec_exec_double(old(self).machine(), *ins) matches Some(m1) ==> r is Ok
                && final(self).machine() == m1 && final(self).devices() == old(self).devices(),
    {
        let size = if ins.op.code() >= 9 && ins.op != DoubleOperandOpcode::Sub {
            Size::Byte
        } else {
            Size::Word
        };
        let src = self.resolve(&ins.src, size)?;
        let sv = self.read_resolved(src, size)?;
        let dst = self.resolve(&ins.dst, size)?;
        let c = self.carry();
        if ins.op == DoubleOperandOpcode::Mov || ins.op == DoubleOperandOpcode::MovB {
            let out = double_op(ins.op, size, sv, 0, c);
            let to_reg = match dst {
                ResolvedOperand::Reg(_) => true,
                ResolvedOperand::Mem(_) => false,
            };
            if ins.op == DoubleOperandOpcode::MovB && to_reg {
                let ext = if sv >= 128 { sv + 0xff00 } else { sv };
                self.write_resolved(dst, Size::Word, ext)?;
            } else {
                self.write_resolved(dst, size, sv)?;
            }
            self.set_flags(out.n, out.z, out.v, out.c);
        } else {
            let dv = self.read_resolved(dst, size)?;
            let out = double_op(ins.op, size, sv, dv, c);
            self.set_flags(out.n, out.z, out.v, out.c);
            if !(ins.op == DoubleOperandOpcode::Cmp || ins.op == DoubleOperandOpcode::CmpB
                || ins.op == DoubleOperandOpcode::Bit || ins.op == DoubleOperandOpcode::BitB) {
                self.write_resolved(dst, size, out.res)?;
            }
        }
        Ok(())
    }

    #[verifier::spinoff_prover]
    fn exec_single_operand_ins(&mut self, ins: &SingleOperandIns) -> (r: Result<(), EmuError>)
        requires
            old(self).wf(),
        ensures
            final(self).same_setup(old(self)),
            spec_exec_single(old(self).machine(), *ins) matches Some(m1) ==> r is Ok
                && final(self).machine() == m1 && final(self).devices() == old(self).devices(),
    {
        let size = if ins.is_byte() {
            Size::Byte
        } else {
            Size::Word
        };
        let dst = self.resolve(&ins.dst, Size::Word)?;
        let c = self.carry();
        let val = if ins.op == SingleOperandOpcode::Clr || ins.op == SingleOperandOpcode::ClrB {
            0
        } else {
            self.read_resolved(dst, size)?
        };
        let out = single_op(ins.op, size, val, c);
        if !(ins.op == SingleOperandOpcode::Tst || ins.op == SingleOperandOpcode::TstB) {
            self.write_resolved(dst, size, out.res)?;
        }
        self.set_flags(out.n, out.z, out.v, out.c);
        Ok(())
    }

    /// The register after `r`, for an even `r`.
    fn pair_reg_of(r: Reg) -> (p: Reg)
        requires
            r.spec_code() % 2 == 0,
        ensures
            p == pair_reg(r),
    {
        match Reg::from_u16(r.to_u16() + 1) {
            Some(p) => {
                proof {
                    crate::isa::lemma_reg_code_roundtrip(p);
                }
                p
            },
            None => Reg::PC,
        }
    }

    fn exec_eis_ins(&mut self, ins: &EisIns) -> (r: Result<(), EmuError>)
        requires
            old(self).wf(),
        ensures
            final(self).same_setup(old(self)),
            spec_exec_eis(old(self).machine(), *ins) matches Some(m1) ==> r is Ok
                && final(self).machine() == m1 && final(self).devices() == old(self).devices(),
    {
        let loc = self.resolve(&ins.operand, Size::Word)?;
        let val = self.read_resolved(loc, Size::Word)?;
        let rv = self.state.reg_read_word(ins.reg);
        let c = self.carry();
        match ins.op {
            EisOpcode::Xor => {
                let out = xor(val, rv, c);
                self.write_resolved(loc, Size::Word, out.res)?;
                self.set_flags(out.n, out.z, out.v, out.c);
                Ok(())
            },
            EisOpcode::Mul => {
                let p = crate::emulator::alu::mul(val, rv);
                self.set_flags(p.n, p.z, false, p.c);
                self.state.try_reg_write_word(ins.reg, p.lo)?;
                if ins.reg.to_u16() % 2 == 0 {
                    let hi = Self::pair_reg_of(ins.reg);
                    self.state.try_reg_write_word(hi, p.hi)?;
                }
                Ok(())
            },
            EisOpcode::Div => {
                if ins.reg.to_u16() % 2 == 1 {
                    return Err(EmuError::OddDivisionRegister);
                }
                let hi = Self::pair_reg_of(ins.reg);
                let upper = self.state.reg_read_word(hi);
                match div(val, upper, rv) {
                    DivOut::ByZero => {
                        let n = self.state.get_status().get_negative();
                        let z = self.state.get_status().get_zero();
                        self.set_flags(n, z, true, true);
                        Ok(())
                    },
                    DivOut::Overflow { n, z } => {
                        self.set_flags(n, z, true, false);
                        Ok(())
                    },
                    DivOut::Done { quot, rem, n, z } => {
                        self.set_flags(n, z, false, false);
                        self.state.try_reg_write_word(ins.reg, quot)?;
                        self.state.try_reg_write_word(hi, rem)
                    },
                    DivOut::RemainderTooLarge => Err(EmuError::RemainderOverflow),
                }
            },
            EisOpcode::Ash => match ash(val, rv) {
                Some(out) => {
                    self.state.try_reg_write_word(ins.reg, out.res)?;
                    self.set_flags(out.n, out.z, out.v, out.c);
                    Ok(())
                },
                None => Err(EmuError::ShiftOutOfRange),
            },
            EisOpcode::Ashc => Err(EmuError::Unimplemented(EisOpcode::Ashc.code())),
        }
    }

    fn exec_branch_ins(&mut self, ins: &BranchIns) -> (r: Result<(), EmuError>)
        requires
            old(self).wf(),
            ins.target is Offset,
        ensures
            final(self).same_setup(old(self)),
            final(self).devices() == old(self).devices(),
            spec_exec_branch(old(self).machine(), *ins) matches Some(m1) ==> r is Ok
                && final(self).machine() == m1,
    {
        let (z, n, c, v) = self.state.get_status().flags();
        let taken = match ins.op {
            BranchOpcode::Br => true,
            BranchOpcode::Bne => !z,
            BranchOpcode::Beq => z,
            BranchOpcode::Bmi => n,
            BranchOpcode::Bpl => !n,
            BranchOpcode::Bcs => c,
            BranchOpcode::Bcc => !c,
            BranchOpcode::Bvs => v,
            BranchOpcode::Bvc => !v,
            BranchOpcode::Blt => n != v,
            BranchOpcode::Bge => n == v,
            BranchOpcode::Ble => z || n != v,
            BranchOpcode::Bgt => !(z || n != v),
            BranchOpcode::Bhi => !c && !z,
            BranchOpcode::Blos => c || z,
        };
        if taken {
            let off = ins.target.unwrap_offset() as u16;
            let disp: u16 = if off >= 128 { off * 2 + 0xfe00 } else { off * 2 };
            let pc = self.state.pc();
            let new_pc = pc.wrapping_add(disp);
            proof {
                assert(new_pc == ((pc + branch_disp(ins.target->Offset_0) + 65536) % 65536) as u16);
            }
            self.state.try_reg_write_word(Reg::PC, new_pc)?;
        }
        Ok(())
    }

    /// The target of a jump: a memory operand at an even address.
    fn jump_target(&mut self, dst: &Operand) -> (r: Result<u16, EmuError>)
        requires
            old(self).wf(),
        ensures
            final(self).same_setup(old(self)),
            spec_jump_target(old(self).machine(), *dst) matches Some((m1, a)) ==> r == Ok::<
                u16,
                EmuError,
            >(a) && final(self).machine() == m1 && final(self).devices() == old(self).devices(),
    {
        match self.resolve(dst, Size::Word)? {
            ResolvedOperand::Reg(_) => Err(EmuError::IllegalJump),
            ResolvedOperand::Mem(a) => if a % 2 != 0 {
                Err(EmuError::IllegalJump)
            } else {
                Ok(a)
            },
        }
    }

    fn push_word(&mut self, val: u16) -> (r: Result<(), EmuError>)
        requires
            old(self).wf(),
        ensures
            final(self).same_setup(old(self)),
            spec_push(old(self).machine(), val) matches Some(m1) ==> r is Ok && final(self).machine() == m1 && final(self).devices() == old(self).devices(),
    {
        let sp = self.state.reg_read_word(Reg::SP);
        if sp < 2 {
            return Err(EmuError::StackOverflow);
        }
        self.state.try_reg_write_word(Reg::SP, sp - 2)?;
        self.try_mem_write_word(sp - 2, val)
    }

    fn pop_word(&mut self) -> (r: Result<u16, EmuError>)
        requires
            old(self).wf(),
        ensures
            final(self).same_setup(old(self)),
            spec_pop(old(self).machine()) matches Some((m1, v)) ==> r == Ok::<u16, EmuError>(v)
                && final(self).machine() == m1 && final(self).devices() == old(self).devices(),
    {
        let sp = self.state.reg_read_word(Reg::SP);
        let v = self.try_mem_read_word(sp)?;
        if sp > 0xfffd {
            return Err(EmuError::AddressOverflow);
        }
        self.state.try_reg_write_word(Reg::SP, sp + 2)?;
        Ok(v)
    }

    fn exec_jmp_ins(&mut self, ins: &JmpIns) -> (r: Result<(), EmuError>)
        requires
            old(self).wf(),
        ensures
            final(self).same_setup(old(self)),
            spec_exec(old(self).machine(), Ins::Jmp(*ins)) matches Some((m1, _)) ==> r is Ok
                && final(self).machine() == m1 && final(self).devices() == old(self).devices(),
    {
        let target = self.jump_target(&ins.dst)?;
        self.state.try_reg_write_word(Reg::PC, target)
    }

    fn exec_jsr_ins(&mut self, ins: &JsrIns) -> (r: Result<(), EmuError>)
        requires
            old(self).wf(),
        ensures
            final(self).same_setup(old(self)),
            spec_exec_jsr(old(self).machine(), *ins) matches Some(m1) ==> r is Ok
                && final(self).machine() == m1 && final(self).devices() == old(self).devices(),
    {
        let target = self.jump_target(&ins.dst)?;
        let link = self.state.reg_read_word(ins.reg);
        self.push_word(link)?;
        let pc = self.state.pc();
        self.state.try_reg_write_word(ins.reg, pc)?;
        self.state.try_reg_write_word(Reg::PC, target)
    }

    fn exec_rts_ins(&mut self, ins: &RtsIns) -> (r: Result<(), EmuError>)
        requires
            old(self).wf(),
        ensures
            final(self).same_setup(old(self)),
            spec_exec_rts(old(self).machine(), *ins) matches Some(m1) ==> r is Ok
                && final(self).machine() == m1 && final(self).devices() == old(self).devices(),
    {
        let new_pc = self.state.reg_read_word(ins.reg);
        self.state.try_reg_write_word(Reg::PC, new_pc)?;
        let link = self.pop_word()?;
        self.state.try_reg_write_word(ins.reg, link)
    }

    fn exec_cc_ins(&mut self, ins: &CCIns)
        requires
            old(self).wf(),
        ensures
            final(self).same_setup(old(self)),
            final(self).devices() == old(self).devices(),
            final(self).machine() == spec_exec_cc(old(self).machine(), *ins),
    {
        let code = ins.op.code();
        let bits = code % 16;
        if (code / 16) % 2 == 1 {
            self.state.get_status_mut().set_flags(bits);
        } else {
            self.state.get_status_mut().clear_flags(bits);
        }
    }

    /// Takes an interrupt through `vector`.
    fn interrupt(&mut self, vector: u16) -> (r: Result<(), EmuError>)
        requires
            old(self).wf(),
        ensures
            final(self).same_setup(old(self)),
            spec_interrupt(old(self).machine(), vector) matches Some(m1) ==> r is Ok && final(self).machine() == m1 && final(self).devices() == old(self).devices(),
    {
        let ps = self.state.get_status().to_raw();
        self.push_word(ps)?;
        let pc = self.state.pc();
        self.push_word(pc)?;
        if vector > 0xfffd {
            return Err(EmuError::AddressOverflow);
        }
        let new_pc = self.try_mem_read_word(vector)?;
        let new_ps = self.try_mem_read_word(vector + 2)?;
        self.state.try_reg_write_word(Reg::PC, new_pc)?;
        self.state.set_status(Status::from_raw(new_ps));
        Ok(())
    }

    fn exec_rti_ins(&mut self) -> (r: Result<(), EmuError>)
        requires
            old(self).wf(),
        ensures
            final(self).same_setup(old(self)),
            spec_rti(old(self).machine()) matches Some(m1) ==> r is Ok && final(self).machine()
                == m1 && final(self).devices() == old(self).devices(),
    {
        let new_pc = self.pop_word()?;
        let new_ps = self.pop_word()?;
        self.state.try_reg_write_word(Reg::PC, new_pc)?;
        self.state.set_status(Status::from_raw(new_ps));
        Ok(())
    }
}

impl Emulator {
    /// Executes a decoded instruction whose words have been fetched.
    fn exec(&mut self, ins: &Ins) -> (r: Result<ExecRet, EmuError>)
        requires
            old(self).wf(),
            ins matches Ins::Branch(b) ==> b.target is Offset,
        ensures
            final(self).same_setup(old(self)),
            spec_exec(old(self).machine(), *ins) matches Some((m1, ret)) ==> r == Ok::<
                ExecRet,
                EmuError,
            >(ret) && final(self).machine() == m1 && final(self).devices() == old(self).devices(),
            r == Ok::<ExecRet, EmuError>(ExecRet::Halt) ==> (ins matches Ins::Misc(i) && i.op
                == MiscOpcode::Halt) && final(self).machine() == old(self).machine(),
    {
        match ins {
            Ins::DoubleOperand(i) => {
                self.exec_double_operand_ins(i)?;
            },
            Ins::Branch(i) => {
                self.exec_branch_ins(i)?;
            },
            Ins::Jmp(i) => {
                self.exec_jmp_ins(i)?;
            },
            Ins::Jsr(i) => {
                self.exec_jsr_ins(i)?;
            },
            Ins::Rts(i) => {
                self.exec_rts_ins(i)?;
            },
            Ins::SingleOperand(i) => {
                self.exec_single_operand_ins(i)?;
            },
            Ins::Eis(i) => {
                self.exec_eis_ins(i)?;
            },
            Ins::CC(i) => {
                self.exec_cc_ins(i);
            },
            Ins::Misc(i) => {
                match i.op {
                    MiscOpcode::Halt => {
                        return Ok(ExecRet::Halt);
                    },
                    MiscOpcode::Wait => {
                        return Ok(ExecRet::Wait);
                    },
                    MiscOpcode::Rti => {
                        self.exec_rti_ins()?;
                    },
                    _ => {
                        return Err(EmuError::Unimplemented(i.op.code()));
                    },
                }
            },
            Ins::Trap(i) => {
                let vector: u16 = match i.op {
                    TrapOpcode::Emt => 0o30,
                    TrapOpcode::Trap => 0o34,
                };
                self.interrupt(vector)?;
            },
        }
        Ok(ExecRet::Continue)
    }

    /// One step of the processor: unless it waits for an interrupt, the
    /// instruction at the PC is fetched and decoded, the PC moved past its
    /// first word, and the instruction executed; `wait` makes the processor
    /// wait.
    pub fn step(&mut self) -> (r: Result<ExecRet, EmuError>)
        requires
            old(self).wf(),
        ensures
            final(self).wf(),
            final(self).attachments() == old(self).attachments(),
            final(self).devices().len() == old(self).devices().len(),
            final(self).spec_state().spec_num_ins() == old(self).spec_state().spec_num_ins(),
            old(self).only_status() ==> final(self).only_status(),
            stepped(
                old(self).machine(),
                old(self).is_waiting(),
                r,
                final(self).machine(),
                final(self).is_waiting(),
            ),
            (old(self).is_waiting() || spec_step(old(self).machine()) is Some) ==> final(self).devices() == old(self).devices(),
    {
        proof {
            reveal(stepped);
            reveal(spec_step);
        }
        if self.waiting {
            return Ok(ExecRet::Wait);
        }
        let ws = self.state.next_ins()?;
        proof {
            crate::decoder::lemma_three_words_complete(ws@);
        }
        let ins = match crate::decoder::decode(ws.as_slice()) {
            Some(i) => i,
            None => {
                return Err(EmuError::InvalidInstruction(ws[0]));
            },
        };
        proof {
            lemma_decoded_branch(ws@);
        }
        let pc = self.state.pc();
        self.state.try_reg_write_word(Reg::PC, pc + 2)?;
        let is_wait = match &ins {
            Ins::Misc(i) => i.op == MiscOpcode::Wait,
            _ => false,
        };
        if is_wait {
            self.waiting = true;
            return Ok(ExecRet::Wait);
        }
        self.exec(&ins)
    }

    /// Lets every attached device tick, once for each address it answers at,
    /// in the order they were attached; returns the device with the
    /// interrupt of highest priority requested (the first among equals).
    fn tick_devices(&mut self) -> (r: Result<Option<(usize, Interrupt)>, EmuError>)
        requires
            old(self).wf(),
        ensures
            final(self).same_setup(old(self)),
            final(self).machine().regs == old(self).machine().regs,
            final(self).machine().mem == old(self).machine().mem,
            r matches Ok(Some((d, _))) ==> d < final(self).devices().len(),
            (final(self).devices(), r) == tick_from(old(self).attachments(), old(self).devices(), 0, None),
            final(self).spec_state() == old(self).spec_state(),
            old(self).only_status()
                ==> r == Ok::<Option<(usize, Interrupt)>, EmuError>(None) && final(self).machine()
                == old(self).machine() && final(self).devices() == old(self).devices(),
    {
        let mut best: Option<(usize, Interrupt)> = None;
        let mut i: usize = 0;
        while i < self.attachments.len()
            invariant
                i <= self.attachments@.len(),
                self.same_setup(old(self)),
                self.machine().regs == old(self).machine().regs,
                self.machine().mem == old(self).machine().mem,
                best matches Some((d, _)) ==> d < self.devices@.len(),
                self.spec_state() == old(self).spec_state(),
                tick_from(self.attachments(), self.devices(), i as int, best) == tick_from(
                    old(self).attachments(),
                    old(self).devices(),
                    0,
                    None,
                ),
                old(self).only_status()
                    ==> best is None && self.machine() == old(self).machine() && self.devices()
                    == old(self).devices(),
            decreases self.attachments@.len() - i,
        {
            let d = self.attachments[i].device;
            assert(self.attachments@[i as int].device < self.devices@.len());
            let t = self.devices[d].tick(&mut self.state)?;
            if let Some(inter) = t {
                match best {
                    Some((_, b)) => {
                        if inter.prio > b.prio {
                            best = Some((d, inter));
                        }
                    },
                    None => {
                        best = Some((d, inter));
                    },
                }
            }
            i = i + 1;
        }
        Ok(best)
    }

    /// Servicing the devices takes `pre` to `post` with result `r`: the
    /// devices tick (see [`tick_from`]); an interrupt picked whose priority
    /// beats the processor's ends a wait, is acknowledged to its device
    /// and, where the device accepts it, taken through its vector.
    pub open spec fn serviced(pre: Emulator, r: Result<(), EmuError>, post: Emulator) -> bool {
        let (devs, t) = tick_from(pre.attachments(), pre.devices(), 0, None);
        let unchanged = post.machine() == pre.machine() && post.is_waiting() == pre.is_waiting();
        match t {
            Err(e) => r == Err::<(), EmuError>(e) && post.devices() == devs && unchanged,
            Ok(Some((d, inter))) => if inter.prio > spec_prio(pre.machine().status) {
                let (nd, ar) = device_accept(devs[d as int]);
                &&& !post.is_waiting()
                &&& match ar {
                    Err(e) => r == Err::<(), EmuError>(e) && post.machine() == pre.machine()
                        && post.devices() == devs.update(d as int, nd),
                    Ok(_) => spec_interrupt(pre.machine(), inter.vector) matches Some(m1) ==> r is Ok
                        && post.machine() == m1 && post.devices() == devs.update(d as int, nd),
                }
            } else {
                r == Ok::<(), EmuError>(()) && post.devices() == devs && unchanged
            },
            Ok(None) => r == Ok::<(), EmuError>(()) && post.devices() == devs && unchanged,
        }
    }

    /// After servicing the devices (giving `rs` and `mid`), one step of the
    /// processor from `mid` gives `r` and `post`; a failed servicing is the
    /// result.
    pub open spec fn stepped_after(
        mid: Emulator,
        rs: Result<(), EmuError>,
        r: Result<ExecRet, EmuError>,
        post: Emulator,
    ) -> bool {
        match rs {
            Err(e) => r == Err::<ExecRet, EmuError>(e) && post.machine() == mid.machine()
                && post.devices() == mid.devices() && post.is_waiting() == mid.is_waiting(),
            Ok(_) => stepped(mid.machine(), mid.is_waiting(), r, post.machine(), post.is_waiting())
                && ((mid.is_waiting() || spec_step(mid.machine()) is Some) ==> post.devices()
                == mid.devices()),
        }
    }

    /// One instruction of the machine, whatever devices are attached: the
    /// devices are serviced (see [`serviced`](Self::serviced)), then the
    /// processor steps (see [`stepped_after`](Self::stepped_after)).
    #[verifier::opaque]
    pub open spec fn ran_ins(pre: Emulator, r: Result<ExecRet, EmuError>, post: Emulator) -> bool {
        exists|mid: Emulator, rs: Result<(), EmuError>|
            #[trigger] Self::serviced(pre, rs, mid) && Self::stepped_after(mid, rs, r, post)
    }

    /// A waiting processor keeps waiting until an interrupt is taken: while
    /// the devices tick without error and request no interrupt that beats
    /// the processor's priority, each instruction reports `Wait` and leaves
    /// the registers, memory, status word and the wait as they were.
    pub proof fn lemma_wait(pre: Emulator, r: Result<ExecRet, EmuError>, post: Emulator)
        requires
            Self::ran_ins(pre, r, post),
            pre.is_waiting(),
            tick_from(pre.attachments(), pre.devices(), 0, None).1 matches Ok(t) && (t matches Some(
                (_, inter),
            ) ==> inter.prio <= spec_prio(pre.machine().status)),
        ensures
            r == Ok::<ExecRet, EmuError>(ExecRet::Wait),
            post.is_waiting(),
            post.machine() == pre.machine(),
    {
        reveal(Emulator::ran_ins);
        reveal(stepped);
        let (mid, rs) = choose|mid: Emulator, rs: Result<(), EmuError>|
            #[trigger] Self::serviced(pre, rs, mid) && Self::stepped_after(mid, rs, r, post);
        assert(rs is Ok && mid.is_waiting() && mid.machine() == pre.machine());
    }

    /// `path` runs from `pre`: each machine after the first is reached from
    /// the one before by an instruction that went on, with result `xs[i]`,
    /// not a halt.
    pub open spec fn chain(pre: Emulator, path: Seq<Emulator>, xs: Seq<ExecRet>) -> bool {
        &&& path.len() == xs.len() + 1
        &&& path[0] == pre
        &&& forall|i: int| 0 <= i < xs.len() ==> #[trigger] Self::link(path, xs, i)
    }

    /// Step `i` of a chain: an instruction that went on with result
    /// `xs[i]`, not a halt, from `path[i]` to `path[i + 1]`.
    pub open spec fn link(path: Seq<Emulator>, xs: Seq<ExecRet>, i: int) -> bool {
        xs[i] != ExecRet::Halt && Self::ran_ins(path[i], Ok(xs[i]), path[i + 1])
    }

    /// A chain extended by one more instruction that went on.
    pub proof fn lemma_chain_push(
        pre: Emulator,
        path: Seq<Emulator>,
        xs: Seq<ExecRet>,
        x: ExecRet,
        post: Emulator,
    )
        requires
            Self::chain(pre, path, xs),
            x != ExecRet::Halt,
            Self::ran_ins(path.last(), Ok(x), post),
        ensures
            Self::chain(pre, path.push(post), xs.push(x)),
    {
        let p = path.push(post);
        let q = xs.push(x);
        assert forall|i: int| 0 <= i < q.len() implies #[trigger] Self::link(p, q, i) by {
            if i < xs.len() {
                assert(Self::link(path, xs, i));
                assert(p[i] == path[i] && p[i + 1] == path[i + 1] && q[i] == xs[i]);
            } else {
                assert(p[i] == path.last() && p[i + 1] == post && q[i] == x);
            }
        }
        assert(p[0] == pre);
        assert(Self::chain(pre, p, q));
    }

    /// A run from `pre` to `post` with result `r`: some instructions that
    /// went on, then one that halted (`Ok`), failed with the error, or went
    /// on when the count of instructions ran out (`StepLimit`).
    pub open spec fn ran(pre: Emulator, r: Result<(), EmuError>, post: Emulator) -> bool {
        exists|path: Seq<Emulator>, xs: Seq<ExecRet>, rr: Result<ExecRet, EmuError>|
            #![trigger Self::chain(pre, path, xs), Self::ran_ins(path.last(), rr, post)]
            Self::chain(pre, path, xs) && Self::ran_ins(path.last(), rr, post) && match r {
                Ok(_) => rr == Ok::<ExecRet, EmuError>(ExecRet::Halt),
                Err(e) => rr == Err::<ExecRet, EmuError>(e) || (e == EmuError::StepLimit
                    && rr is Ok && rr != Ok::<ExecRet, EmuError>(ExecRet::Halt)),
            }
    }

    /// Runs one instruction: counts it, lets the devices tick and takes the
    /// interrupt of highest priority if it beats the processor's priority
    /// (which ends a wait), then carries out a [`step`](Self::step).
    /// With no device but the status word attached, this is exactly a step.
    pub fn run_ins(&mut self) -> (r: Result<ExecRet, EmuError>)
        requires
            old(self).wf(),
        ensures
            final(self).wf(),
            final(self).attachments() == old(self).attachments(),
            final(self).devices().len() == old(self).devices().len(),
            final(self).spec_state().spec_num_ins() == old(self).spec_state().spec_num_ins().wrapping_add(1),
            old(self).only_status() ==> final(self).only_status(),
            old(self).only_status()
                ==> stepped(
                old(self).machine(),
                old(self).is_waiting(),
                r,
                final(self).machine(),
                final(self).is_waiting(),
            ),
            Self::ran_ins(*old(self), r, *final(self)),
    {
        reveal(Emulator::ran_ins);
        self.state.inc_ins();
        let ghost s1 = *self;
        let rs = self.service_devices();
        let ghost mid = *self;
        proof {
            assert(s1.attachments() == old(self).attachments());
            assert(s1.devices() == old(self).devices());
            assert(s1.machine() == old(self).machine());
            assert(s1.is_waiting() == old(self).is_waiting());
            assert(Self::serviced(*old(self), rs, mid));
        }
        match rs {
            Err(e) => {
                proof {
                    assert(Self::stepped_after(mid, rs, Err(e), *self));
                }
                return Err(e);
            },
            Ok(_) => {},
        }
        let r = self.step();
        proof {
            assert(Self::stepped_after(mid, rs, r, *self));
        }
        r
    }

    /// Lets the devices tick and takes the interrupt of highest priority if
    /// it beats the processor's priority, which ends a wait.
    fn service_devices(&mut self) -> (r: Result<(), EmuError>)
        requires
            old(self).wf(),
        ensures
            final(self).wf(),
            final(self).attachments() == old(self).attachments(),
            final(self).devices().len() == old(self).devices().len(),
            final(self).spec_state().spec_num_ins() == old(self).spec_state().spec_num_ins(),
            old(self).only_status() ==> final(self).only_status(),
            old(self).only_status()
                ==> r is Ok && final(self).machine() == old(self).machine() && final(self).devices()
                == old(self).devices() && final(self).is_waiting() == old(self).is_waiting(),
            Self::serviced(*old(self), r, *final(self)),
    {
        let picked = self.tick_devices()?;
        if let Some((d, inter)) = picked {
            if inter.prio > self.state.get_status().get_prio() {
                self.waiting = false;
                self.devices[d].interrupt_accepted()?;
                self.interrupt(inter.vector)?;
            }
        }
        Ok(())
    }

    /// Runs until a `halt` or an error. A run stops with the error
    /// [`EmuError::StepLimit`] after `u64::MAX` instructions.
    pub fn run(&mut self) -> (r: Result<(), EmuError>)
        requires
            old(self).wf(),
        ensures
            final(self).wf(),
            final(self).attachments() == old(self).attachments(),
            final(self).devices().len() == old(self).devices().len(),
            old(self).only_status()
                && r is Ok ==> exists|pre: Machine|
                #[trigger] spec_step(pre) == Some((final(self).machine(), ExecRet::Halt)),
            old(self).only_status() && !old(self).is_waiting() ==> ran_as(
                run_result(old(self).machine(), u64::MAX as nat),
                r,
                final(self).machine(),
            ),
            Self::ran(*old(self), r, *final(self)),
    {
        let ghost expected = run_result(self.machine(), u64::MAX as nat);
        let ghost known = self.only_status() && !self.is_waiting() && expected is Some;
        let mut steps: u64 = 0;
        let ghost mut path: Seq<Emulator> = seq![*self];
        let ghost mut xs: Seq<ExecRet> = seq![];
        loop
            invariant
                self.wf(),
                self.attachments() == old(self).attachments(),
                self.devices().len() == old(self).devices().len(),
                old(self).only_status() ==> self.only_status(),
                expected == run_result(old(self).machine(), u64::MAX as nat),
                known == (old(self).only_status() && !old(self).is_waiting() && expected is Some),
                Self::chain(*old(self), path, xs),
                path.last() == *self,
                known ==> !self.is_waiting() && run_result(
                    self.machine(),
                    (u64::MAX - steps) as nat,
                ) == expected,
            decreases u64::MAX - steps,
        {
            let ghost pre = self.machine();
            let ghost pre_waiting = self.is_waiting();
            let ghost before = *self;
            let ret = match self.run_ins() {
                Ok(x) => x,
                Err(e) => {
                    proof {
                        if known {
                            lemma_run_step(
                                pre,
                                (u64::MAX - steps) as nat,
                                Err(e),
                                self.machine(),
                                self.is_waiting(),
                            );
                        }
                    }
                    assert(Self::chain(*old(self), path, xs) && Self::ran_ins(path.last(), Err(e), *self));
                    return Err(e);
                },
            };
            proof {
                if known {
                    lemma_run_step(
                        pre,
                        (u64::MAX - steps) as nat,
                        Ok(ret),
                        self.machine(),
                        self.is_waiting(),
                    );
                }
            }
            if ret == ExecRet::Halt {
                proof {
                    if old(self).only_status() {
                        lemma_halt_stepped(pre, pre_waiting, self.machine(), self.is_waiting());
                    }
                }
                assert(Self::chain(*old(self), path, xs) && Self::ran_ins(path.last(), Ok(ret), *self));
                return Ok(());
            }
            assert(Self::chain(*old(self), path, xs) && Self::ran_ins(path.last(), Ok(ret), *self));
            if steps == u64::MAX {
                return Err(EmuError::StepLimit);
            }
            proof {
                Self::lemma_chain_push(*old(self), path, xs, ret, *self);
                path = path.push(*self);
                xs = xs.push(ret);
            }
            steps = steps + 1;
        }
    }

    /// Sets the PC and runs until a `halt` or an error.
    pub fn run_at(&mut self, pc: u16) -> (r: Result<(), EmuError>)
        requires
            old(self).wf(),
        ensures
            final(self).wf(),
            final(self).attachments() == old(self).attachments(),
            final(self).devices().len() == old(self).devices().len(),
            old(self).only_status()
                && r is Ok ==> exists|pre: Machine|
                #[trigger] spec_step(pre) == Some((final(self).machine(), ExecRet::Halt)),
            old(self).only_status() && !old(self).is_waiting() ==> ran_as(
                run_result(
                    Machine { regs: old(self).machine().regs.update(7, pc), ..old(self).machine() },
                    u64::MAX as nat,
                ),
                r,
                final(self).machine(),
            ),
            exists|start: Emulator|
                #![trigger Self::ran(start, r, *final(self))]
                start.machine() == (Machine {
                    regs: old(self).machine().regs.update(7, pc),
                    ..old(self).machine()
                }) && start.devices() == old(self).devices() && start.attachments() == old(
                    self,
                ).attachments() && start.is_waiting() == old(self).is_waiting() && Self::ran(
                    start,
                    r,
                    *final(self),
                ),
    {
        self.state.try_reg_write_word(Reg::PC, pc)?;
        let ghost start = *self;
        let r = self.run();
        proof {
            assert(Self::ran(start, r, *self));
        }
        r
    }

    /// Continues after a `halt`.
    pub fn cont(&mut self) -> (r: Result<(), EmuError>)
        requires
            old(self).wf(),
        ensures
            final(self).wf(),
            final(self).attachments() == old(self).attachments(),
            final(self).devices().len() == old(self).devices().len(),
            old(self).only_status()
                && r is Ok ==> exists|pre: Machine|
                #[trigger] spec_step(pre) == Some((final(self).machine(), ExecRet::Halt)),
            old(self).only_status() && !old(self).is_waiting() ==> ran_as(
                run_result(old(self).machine(), u64::MAX as nat),
                r,
                final(self).machine(),
            ),
            Self::ran(*old(self), r, *final(self)),
    {
        self.run()
    }
}

impl Emulator {
    /// The index of the device answering at `addr`.
    pub open spec fn device_at(&self, addr: u16) -> int {
        find_from(self.attachments(), addr, 0)->0 as int
    }

    /// Whether a byte read at `addr` succeeds: memory below the I/O page, or
    /// a device that answers there and takes the read.
    pub open spec fn reads_byte(&self, addr: u16) -> bool {
        addr < MMIO_START || (self.handles(addr) && forall|d2: Device, r: Result<u8, EmuError>|
            #[trigger] device_read_byte(
                self.devices()[self.device_at(addr)],
                self.spec_state(),
                addr,
                d2,
                r,
            ) ==> r is Ok)
    }

    /// Whether a word read at `addr` succeeds: an even address in memory
    /// below the I/O page, or one a device answers at and takes the read.
    pub open spec fn reads_word(&self, addr: u16) -> bool {
        addr % 2 == 0 && (addr < MMIO_START || (self.handles(addr) && forall|
            d2: Device,
            r: Result<u16, EmuError>,
        |
            #[trigger] device_read_word(
                self.devices()[self.device_at(addr)],
                self.spec_state(),
                addr,
                d2,
                r,
            ) ==> r is Ok))
    }

    /// Whether writing byte `val` at `addr` succeeds.
    pub open spec fn writes_byte(&self, addr: u16, val: u8) -> bool {
        addr < MMIO_START || (self.handles(addr) && forall|
            d2: Device,
            e2: EmulatorState,
            r: Result<(), EmuError>,
        |
            #[trigger] device_write_byte(
                self.devices()[self.device_at(addr)],
                self.spec_state(),
                addr,
                val,
                d2,
                e2,
                r,
            ) ==> r is Ok)
    }

    /// Whether writing word `val` at `addr` succeeds.
    pub open spec fn writes_word(&self, addr: u16, val: u16) -> bool {
        addr % 2 == 0 && (addr < MMIO_START || (self.handles(addr) && forall|
            d2: Device,
            e2: EmulatorState,
            r: Result<(), EmuError>,
        |
            #[trigger] device_write_word(
                self.devices()[self.device_at(addr)],
                self.spec_state(),
                addr,
                val,
                d2,
                e2,
                r,
            ) ==> r is Ok))
    }

    /// Reads a byte from memory below the I/O page, else from the device
    /// answering there. The read must succeed: on an address nothing
    /// answers at, or a read the device refuses, the call panics (see
    /// [`try_mem_read_byte`](Self::try_mem_read_byte) for the error).
    pub fn mem_read_byte(&mut self, addr: u16) -> (r: u8)
        requires
            old(self).wf(),
            old(self).reads_byte(addr),
        ensures
            final(self).same_setup(old(self)),
            addr < MMIO_START ==> r == old(self).machine().mem[addr as int] && final(self).machine()
                == old(self).machine() && final(self).devices() == old(self).devices(),
            addr >= MMIO_START ==> ({
                let d = old(self).device_at(addr);
                &&& final(self).spec_state() == old(self).spec_state()
                &&& only_device_changed(old(self).devices(), d, final(self).devices())
                &&& device_read_byte(
                    old(self).devices()[d],
                    old(self).spec_state(),
                    addr,
                    final(self).devices()[d],
                    Ok(r),
                )
            }),
    {
        let ghost pre = *self;
        match self.try_mem_read_byte(addr) {
            Ok(v) => v,
            Err(e) => {
                proof {
                    let d = pre.device_at(addr);
                    assert(device_read_byte(
                        pre.devices()[d],
                        pre.spec_state(),
                        addr,
                        self.devices()[d],
                        Err::<u8, EmuError>(e),
                    ));
                }
                vstd::pervasive::unreached()
            },
        }
    }

    /// Writes a byte to memory below the I/O page, else to the device
    /// answering there. The write must succeed: the call panics otherwise.
    pub fn mem_write_byte(&mut self, addr: u16, val: u8)
        requires
            old(self).wf(),
            old(self).writes_byte(addr, val),
        ensures
            final(self).same_setup(old(self)),
            final(self).machine().regs == old(self).machine().regs,
            addr < MMIO_START ==> final(self).machine() == (Machine {
                mem: old(self).machine().mem.update(addr as int, val),
                ..old(self).machine()
            }) && final(self).devices() == old(self).devices(),
            addr >= MMIO_START ==> ({
                let d = old(self).device_at(addr);
                &&& final(self).machine().mem == old(self).machine().mem
                &&& only_device_changed(old(self).devices(), d, final(self).devices())
                &&& device_write_byte(
                    old(self).devices()[d],
                    old(self).spec_state(),
                    addr,
                    val,
                    final(self).devices()[d],
                    final(self).spec_state(),
                    Ok(()),
                )
            }),
    {
        let ghost pre = *self;
        match self.try_mem_write_byte(addr, val) {
            Ok(()) => {},
            Err(e) => {
                proof {
                    let d = pre.device_at(addr);
                    assert(device_write_byte(
                        pre.devices()[d],
                        pre.spec_state(),
                        addr,
                        val,
                        self.devices()[d],
                        self.spec_state(),
                        Err::<(), EmuError>(e),
                    ));
                }
                vstd::pervasive::unreached()
            },
        }
    }

    /// Reads a word at an even address: from memory below the I/O page, else
    /// from the device answering there. The read must succeed: on an odd
    /// address, one nothing answers at, or a read the device refuses, the
    /// call panics.
    pub fn mem_read_word(&mut self, addr: u16) -> (r: u16)
        requires
            old(self).wf(),
            old(self).reads_word(addr),
        ensures
            final(self).same_setup(old(self)),
            addr < MMIO_START ==> r == crate::emulator::emulator_state::mem_word(
                old(self).machine().mem,
                addr as int,
            ) && final(self).machine() == old(self).machine() && final(self).devices()
                == old(self).devices(),
            addr >= MMIO_START ==> ({
                let d = old(self).device_at(addr);
                &&& final(self).spec_state() == old(self).spec_state()
                &&& only_device_changed(old(self).devices(), d, final(self).devices())
                &&& device_read_word(
                    old(self).devices()[d],
                    old(self).spec_state(),
                    addr,
                    final(self).devices()[d],
                    Ok(r),
                )
            }),
    {
        let ghost pre = *self;
        match self.try_mem_read_word(addr) {
            Ok(v) => v,
            Err(e) => {
                proof {
                    let d = pre.device_at(addr);
                    assert(device_read_word(
                        pre.devices()[d],
                        pre.spec_state(),
                        addr,
                        self.devices()[d],
                        Err::<u16, EmuError>(e),
                    ));
                }
                vstd::pervasive::unreached()
            },
        }
    }

    /// Writes a word at an even address: to memory below the I/O page, else
    /// to the device answering there. The write must succeed: the call
    /// panics otherwise.
    pub fn mem_write_word(&mut self, addr: u16, val: u16)
        requires
            old(self).wf(),
            old(self).writes_word(addr, val),
        ensures
            final(self).same_setup(old(self)),
            final(self).machine().regs == old(self).machine().regs,
            addr < MMIO_START ==> final(self).machine() == (Machine {
                mem: crate::emulator::emulator_state::mem_with_word(
                    old(self).machine().mem,
                    addr as int,
                    val,
                ),
                ..old(self).machine()
            }) && final(self).devices() == old(self).devices(),
            addr >= MMIO_START ==> ({
                let d = old(self).device_at(addr);
                &&& final(self).machine().mem == old(self).machine().mem
                &&& only_device_changed(old(self).devices(), d, final(self).devices())
                &&& device_write_word(
                    old(self).devices()[d],
                    old(self).spec_state(),
                    addr,
                    val,
                    final(self).devices()[d],
                    final(self).spec_state(),
                    Ok(()),
                )
            }),
    {
        let ghost pre = *self;
        match self.try_mem_write_word(addr, val) {
            Ok(()) => {},
            Err(e) => {
                proof {
                    let d = pre.device_at(addr);
                    assert(device_write_word(
                        pre.devices()[d],
                        pre.spec_state(),
                        addr,
                        val,
                        self.devices()[d],
                        self.spec_state(),
                        Err::<(), EmuError>(e),
                    ));
                }
                vstd::pervasive::unreached()
            },
        }
    }

    /// Writes a register. The stack pointer may not go below 0o400: the
    /// call panics there.
    pub fn reg_write_word(&mut self, reg: Reg, val: u16)
        requires
            old(self).wf(),
            put_reg(old(self).machine(), reg, val) is Some,
        ensures
            final(self).same_setup(old(self)),
            final(self).devices() == old(self).devices(),
            final(self).machine() == put_reg(old(self).machine(), reg, val)->0,
    {
        match self.try_reg_write_word(reg, val) {
            Ok(()) => {},
            Err(_) => vstd::pervasive::unreached(),
        }
    }

    /// Replaces the low byte of a register. The stack pointer may not go
    /// below 0o400: the call panics there.
    pub fn reg_write_byte(&mut self, reg: Reg, val: u8)
        requires
            old(self).wf(),
            write_loc(old(self).machine(), ResolvedOperand::Reg(reg), Size::Byte, val as u16) is Some,
        ensures
            final(self).same_setup(old(self)),
            final(self).devices() == old(self).devices(),
            final(self).machine() == write_loc(
                old(self).machine(),
                ResolvedOperand::Reg(reg),
                Size::Byte,
                val as u16,
            )->0,
    {
        match self.try_reg_write_byte(reg, val) {
            Ok(()) => {},
            Err(_) => vstd::pervasive::unreached(),
        }
    }

    /// Attaches a device at the addresses given. They must be even, in the
    /// I/O page, distinct and free: the call panics otherwise (see
    /// [`try_set_mmio_handler_for`](Self::try_set_mmio_handler_for) for the
    /// error).
    pub fn set_mmio_handler_for(&mut self, device: Device, addrs: &[u16])
        requires
            old(self).wf(),
            first_attach_error(old(self).taken(), addrs@) is None,
        ensures
            final(self).wf(),
            final(self).machine() == old(self).machine(),
            final(self).is_waiting() == old(self).is_waiting(),
            final(self).spec_state().spec_num_ins() == old(self).spec_state().spec_num_ins(),
            final(self).devices() == old(self).devices().push(device),
            final(self).attachments() == old(self).attachments() + addrs@.map_values(
                |a: u16| Attachment { addr: a, device: old(self).devices().len() as usize },
            ),
    {
        match self.try_set_mmio_handler_for(device, addrs) {
            Ok(()) => {},
            Err(_) => vstd::pervasive::unreached(),
        }
    }

    /// Attaches a device at its default addresses, which must be free: the
    /// call panics otherwise.
    pub fn set_mmio_handler(&mut self, device: Device)
        requires
            old(self).wf(),
            first_attach_error(old(self).taken(), device.spec_default_addrs()) is None,
        ensures
            final(self).wf(),
            final(self).machine() == old(self).machine(),
            final(self).is_waiting() == old(self).is_waiting(),
            final(self).spec_state().spec_num_ins() == old(self).spec_state().spec_num_ins(),
            final(self).devices() == old(self).devices().push(device),
            final(self).attachments() == old(self).attachments()
                + device.spec_default_addrs().map_values(
                |a: u16| Attachment { addr: a, device: old(self).devices().len() as usize },
            ),
    {
        match self.try_set_mmio_handler(device) {
            Ok(()) => {},
            Err(_) => vstd::pervasive::unreached(),
        }
    }
}

} // verus!
