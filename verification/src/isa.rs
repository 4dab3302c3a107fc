//! Assembly-level data structures of the PDP-11: addressing modes, registers,
//! operands, expressions and the instruction formats, with their binary
//! encoding.
use vstd::prelude::*;
use crate::constants::WORD_SIZE;
use crate::mem::{word_bytes, words_to_bytes, write_u16, lemma_words_to_bytes_push};

verus! {

/// The eight addressing modes of an operand, numbered as in the encoding.
#[derive(Debug, Clone, Copy, PartialEq, Eq, Structural)]
pub enum AddrMode {
    Gen,
    Def,
    AutoInc,
    AutoIncDef,
    AutoDec,
    AutoDecDef,
    Index,
    IndexDef,
}

impl AddrMode {
    pub const NUM_BITS: usize = 3;

    pub const MASK: u16 = 7;

    /// The 3-bit number of the mode.
    pub open spec fn spec_code(self) -> u16 {
        match self {
            AddrMode::Gen => 0,
            AddrMode::Def => 1,
            AddrMode::AutoInc => 2,
            AddrMode::AutoIncDef => 3,
            AddrMode::AutoDec => 4,
            AddrMode::AutoDecDef => 5,
            AddrMode::Index => 6,
            AddrMode::IndexDef => 7,
        }
    }

    pub fn to_u16(&self) -> (r: u16)
        ensures
            r == self.spec_code(),
            r < 8,
    {
        match self {
            AddrMode::Gen => 0,
            AddrMode::Def => 1,
            AddrMode::AutoInc => 2,
            AddrMode::AutoIncDef => 3,
            AddrMode::AutoDec => 4,
            AddrMode::AutoDecDef => 5,
            AddrMode::Index => 6,
            AddrMode::IndexDef => 7,
        }
    }

    /// The mode with the given number, if it is below eight.
    pub fn from_u16(v: u16) -> (r: Option<AddrMode>)
        ensures
            r is Some <==> v < 8,
            r matches Some(m) ==> m.spec_code() == v,
    {
        match v {
            0 => Some(AddrMode::Gen),
            1 => Some(AddrMode::Def),
            2 => Some(AddrMode::AutoInc),
            3 => Some(AddrMode::AutoIncDef),
            4 => Some(AddrMode::AutoDec),
            5 => Some(AddrMode::AutoDecDef),
            6 => Some(AddrMode::Index),
            7 => Some(AddrMode::IndexDef),
            _ => None,
        }
    }
}

pub open spec fn spec_addr_mode(v: u16) -> AddrMode
    recommends
        v < 8,
{
    if v == 0 {
        AddrMode::Gen
    } else if v == 1 {
        AddrMode::Def
    } else if v == 2 {
        AddrMode::AutoInc
    } else if v == 3 {
        AddrMode::AutoIncDef
    } else if v == 4 {
        AddrMode::AutoDec
    } else if v == 5 {
        AddrMode::AutoDecDef
    } else if v == 6 {
        AddrMode::Index
    } else {
        AddrMode::IndexDef
    }
}

/// The eight general registers.
#[derive(Debug, Clone, Copy, PartialEq, Eq, Structural)]
pub enum Reg {
    R0,
    R1,
    R2,
    R3,
    R4,
    R5,
    SP,
    PC,
}

/// Number of general registers.
pub const NUM_REGS: usize = 8;

impl Reg {
    pub const NUM_BITS: usize = 3;

    pub const MASK: u16 = 7;

    /// The 3-bit number of the register.
    pub open spec fn spec_code(self) -> u16 {
        match self {
            Reg::R0 => 0,
            Reg::R1 => 1,
            Reg::R2 => 2,
            Reg::R3 => 3,
            Reg::R4 => 4,
            Reg::R5 => 5,
            Reg::SP => 6,
            Reg::PC => 7,
        }
    }

    pub fn to_u16(&self) -> (r: u16)
        ensures
            r == self.spec_code(),
            r < 8,
    {
        match self {
            Reg::R0 => 0,
            Reg::R1 => 1,
            Reg::R2 => 2,
            Reg::R3 => 3,
            Reg::R4 => 4,
            Reg::R5 => 5,
            Reg::SP => 6,
            Reg::PC => 7,
        }
    }

    pub fn to_usize(&self) -> (r: usize)
        ensures
            r == self.spec_code(),
            r < NUM_REGS,
    {
        self.to_u16() as usize
    }

    /// The register with the given number, if it is below eight.
    pub fn from_u16(v: u16) -> (r: Option<Reg>)
        ensures
            r is Some <==> v < 8,
            r matches Some(m) ==> m.spec_code() == v,
    {
        match v {
            0 => Some(Reg::R0),
            1 => Some(Reg::R1),
            2 => Some(Reg::R2),
            3 => Some(Reg::R3),
            4 => Some(Reg::R4),
            5 => Some(Reg::R5),
            6 => Some(Reg::SP),
            7 => Some(Reg::PC),
            _ => None,
        }
    }
}

pub open spec fn spec_reg(v: u16) -> Reg
    recommends
        v < 8,
{
    if v == 0 {
        Reg::R0
    } else if v == 1 {
        Reg::R1
    } else if v == 2 {
        Reg::R2
    } else if v == 3 {
        Reg::R3
    } else if v == 4 {
        Reg::R4
    } else if v == 5 {
        Reg::R5
    } else if v == 6 {
        Reg::SP
    } else {
        Reg::PC
    }
}

pub proof fn lemma_reg_code_roundtrip(r: Reg)
    ensures
        spec_reg(r.spec_code()) == r,
{
}

pub proof fn lemma_mode_code_roundtrip(m: AddrMode)
    ensures
        spec_addr_mode(m.spec_code()) == m,
{
}

/// The binary operators of assembler expressions.
#[derive(Debug, Clone, Copy, PartialEq, Eq, Structural)]
pub enum Op {
    Add,
    Sub,
    And,
    Or,
}

impl Op {
    /// The character that denotes the operator in assembler source.
    pub fn to_char(&self) -> (c: char)
        ensures
            c == match self {
                Op::Add => '+',
                Op::Sub => '-',
                Op::And => '&',
                Op::Or => '!',
            },
    {
        match self {
            Op::Add => '+',
            Op::Sub => '-',
            Op::And => '&',
            Op::Or => '!',
        }
    }
}

/// An operand of an assembler expression.
#[derive(Debug, Clone, Copy, PartialEq, Eq, Structural)]
pub enum Atom {
    /// The location counter, `.`.
    Loc,
    Val(u16),
    /// A reference to a named symbol, by its index in the symbol name table.
    SymbolRef(usize),
    /// A forward reference to a temporary label, `Nf`.
    TmpSymbolFRef(u16),
    /// A backward reference to a temporary label, `Nb`.
    TmpSymbolBRef(u16),
}

/// An assembler expression, evaluated from left to right.
#[derive(Debug)]
pub enum Expr {
    Atom(Atom),
    Op(Box<Expr>, Op, Atom),
}

impl Atom {
    /// A copy of the atom.
    pub fn copy(&self) -> (r: Atom)
        ensures
            r == *self,
    {
        match self {
            Atom::Loc => Atom::Loc,
            Atom::Val(v) => Atom::Val(*v),
            Atom::SymbolRef(s) => Atom::SymbolRef(*s),
            Atom::TmpSymbolFRef(l) => Atom::TmpSymbolFRef(*l),
            Atom::TmpSymbolBRef(l) => Atom::TmpSymbolBRef(*l),
        }
    }
}

impl Expr {
    /// A copy of the expression.
    pub fn copy(&self) -> (r: Expr)
        ensures
            r == *self,
        decreases self,
    {
        match self {
            Expr::Atom(a) => Expr::Atom(a.copy()),
            Expr::Op(lhs, op, rhs) => Expr::Op(Box::new((**lhs).copy()), *op, rhs.copy()),
        }
    }

    /// Whether the expression is a plain value.
    pub open spec fn is_val(self) -> bool {
        self matches Expr::Atom(Atom::Val(_))
    }

    pub open spec fn spec_val(self) -> u16 {
        match self {
            Expr::Atom(Atom::Val(v)) => v,
            _ => 0,
        }
    }

    /// The value of an expression that is a plain value.
    pub fn unwrap_val(&self) -> (v: u16)
        requires
            self.is_val(),
        ensures
            v == self.spec_val(),
    {
        match self {
            Expr::Atom(Atom::Val(v)) => *v,
            _ => 0,
        }
    }

    /// Whether the expression is a plain value; executable form.
    pub fn check_resolved(&self) -> (r: bool)
        ensures
            r == self.is_val(),
    {
        match self {
            Expr::Atom(Atom::Val(_)) => true,
            _ => false,
        }
    }
}

/// The word that follows an instruction for an operand: none, an immediate
/// or absolute value, or a PC-relative one.
#[derive(Debug)]
pub enum Extra {
    Absent,
    Imm(Expr),
    Rel(Expr),
}

impl Extra {
    /// A copy of the extra word.
    pub fn copy(&self) -> (r: Extra)
        ensures
            r == *self,
    {
        match self {
            Extra::Absent => Extra::Absent,
            Extra::Imm(e) => Extra::Imm(e.copy()),
            Extra::Rel(e) => Extra::Rel(e.copy()),
        }
    }

    pub open spec fn is_val(self) -> bool {
        match self {
            Extra::Absent => false,
            Extra::Imm(e) => e.is_val(),
            Extra::Rel(e) => e.is_val(),
        }
    }

    pub open spec fn spec_val(self) -> u16 {
        match self {
            Extra::Absent => 0,
            Extra::Imm(e) => e.spec_val(),
            Extra::Rel(e) => e.spec_val(),
        }
    }

    /// The value of a resolved extra word.
    pub fn unwrap_val(&self) -> (v: u16)
        requires
            self.is_val(),
        ensures
            v == self.spec_val(),
    {
        match self {
            Extra::Imm(e) => e.unwrap_val(),
            Extra::Rel(e) => e.unwrap_val(),
            Extra::Absent => 0,
        }
    }

    pub fn is_none(&self) -> (r: bool)
        ensures
            r == (self is Absent),
    {
        match self {
            Extra::Absent => true,
            _ => false,
        }
    }
}

/// Whether an operand with this mode and register is followed by an extra
/// word: immediate and absolute operands, and all indexed ones.
pub open spec fn spec_needs_extra(mode: AddrMode, reg: Reg) -> bool {
    ||| (mode == AddrMode::AutoInc || mode == AddrMode::AutoIncDef) && reg == Reg::PC
    ||| mode == AddrMode::Index
    ||| mode == AddrMode::IndexDef
}

/// Whether the extra word of an operand with this mode and register is
/// relative to the PC (relative and relative-deferred operands).
pub open spec fn spec_is_relative(mode: AddrMode, reg: Reg) -> bool {
    (mode == AddrMode::Index || mode == AddrMode::IndexDef) && reg == Reg::PC
}

/// An operand: addressing mode, register, and the extra word it may carry.
#[derive(Debug)]
pub struct Operand {
    pub mode: AddrMode,
    pub reg: Reg,
    pub extra: Extra,
}

impl Operand {
    pub const NUM_BITS: usize = 6;

    pub const MASK: u16 = 63;

    /// The six bits of the operand in an instruction word.
    pub open spec fn spec_encode(self) -> u16 {
        (self.mode.spec_code() * 8 + self.reg.spec_code()) as u16
    }

    pub open spec fn spec_needs_extra(self) -> bool {
        spec_needs_extra(self.mode, self.reg)
    }

    pub open spec fn spec_num_extra(self) -> u16 {
        if self.extra is Absent {
            0
        } else {
            1
        }
    }

    /// The words that follow the instruction word for this operand.
    pub open spec fn extra_words(self) -> Seq<u16> {
        if self.extra is Absent {
            seq![]
        } else {
            seq![self.extra.spec_val()]
        }
    }

    /// Every extra word the operand carries is a plain value.
    pub open spec fn resolved(self) -> bool {
        self.extra is Absent || self.extra.is_val()
    }

    /// The operand is as decoding produces it: it carries a resolved extra
    /// word exactly when its mode needs one, relative for PC-indexed modes
    /// and immediate otherwise.
    pub open spec fn canonical(self) -> bool {
        if self.spec_needs_extra() {
            if spec_is_relative(self.mode, self.reg) {
                self.extra matches Extra::Rel(Expr::Atom(Atom::Val(_)))
            } else {
                self.extra matches Extra::Imm(Expr::Atom(Atom::Val(_)))
            }
        } else {
            self.extra is Absent
        }
    }

    /// The operand carries a resolved extra word exactly when its mode
    /// needs one, of either kind.
    pub open spec fn well_shaped(self) -> bool {
        if self.spec_needs_extra() {
            self.extra.is_val()
        } else {
            self.extra is Absent
        }
    }

    /// The operand as decoding gives it back: its extra word marked
    /// relative for PC-indexed modes and immediate otherwise.
    pub open spec fn canonical_form(self) -> Operand {
        Operand {
            extra: if self.extra is Absent {
                Extra::Absent
            } else if spec_is_relative(self.mode, self.reg) {
                Extra::Rel(Expr::Atom(Atom::Val(self.extra.spec_val())))
            } else {
                Extra::Imm(Expr::Atom(Atom::Val(self.extra.spec_val())))
            },
            ..self
        }
    }

    /// A new operand; an operand whose mode needs an extra word must be
    /// given one.
    pub fn new(mode: AddrMode, reg: Reg, extra: Extra) -> (r: Operand)
        requires
            !spec_needs_extra(mode, reg) || !(extra is Absent),
        ensures
            r == (Operand { mode, reg, extra }),
    {
        Operand { mode, reg, extra }
    }

    pub fn needs_extra(&self) -> (r: bool)
        ensures
            r == self.spec_needs_extra(),
    {
        match (self.mode, self.reg) {
            (AddrMode::AutoInc, Reg::PC) | (AddrMode::AutoIncDef, Reg::PC) => true,
            (AddrMode::Index, _) | (AddrMode::IndexDef, _) => true,
            _ => false,
        }
    }

    /// Gives the operand the extra word that its mode needs, relative for
    /// PC-indexed modes and immediate otherwise.
    pub fn add_extra(&mut self, val: u16)
        requires
            old(self).spec_needs_extra(),
        ensures
            final(self).mode == old(self).mode,
            final(self).reg == old(self).reg,
            final(self).extra == if spec_is_relative(old(self).mode, old(self).reg) {
                Extra::Rel(Expr::Atom(Atom::Val(val)))
            } else {
                Extra::Imm(Expr::Atom(Atom::Val(val)))
            },
    {
        let v = Expr::Atom(Atom::Val(val));
        match (self.mode, self.reg) {
            (AddrMode::Index, Reg::PC) | (AddrMode::IndexDef, Reg::PC) => self.extra = Extra::Rel(v),
            _ => self.extra = Extra::Imm(v),
        }
    }

    pub fn has_extra(&self) -> (r: bool)
        ensures
            r == !(self.extra is Absent),
    {
        !self.extra.is_none()
    }

    pub fn num_extra(&self) -> (r: u16)
        ensures
            r == self.spec_num_extra(),
            r <= 1,
    {
        if self.has_extra() {
            1
        } else {
            0
        }
    }

    /// The six bits of the operand in an instruction word.
    pub fn encode(&self) -> (r: u16)
        ensures
            r == self.spec_encode(),
            r < 64,
    {
        self.mode.to_u16() * 8 + self.reg.to_u16()
    }

    /// A copy of the operand.
    pub fn copy(&self) -> (r: Operand)
        ensures
            r == *self,
    {
        Operand { mode: self.mode, reg: self.reg, extra: self.extra.copy() }
    }

    /// Decodes the six operand bits `arg`, taking its extra word, if it needs
    /// one, from `input[imm_idx]`.
    pub fn decode(arg: u16, input: &[u16], imm_idx: usize) -> (r: Option<Operand>)
        requires
            arg < 64,
        ensures
            r == spec_decode_operand(arg, input@, imm_idx as int),
    {
        let mode = match AddrMode::from_u16(arg / 8) {
            Some(m) => m,
            None => AddrMode::Gen,
        };
        let reg = match Reg::from_u16(arg % 8) {
            Some(r) => r,
            None => Reg::R0,
        };
        let mut op = Operand { mode, reg, extra: Extra::Absent };
        if op.needs_extra() {
            if imm_idx < input.len() {
                op.add_extra(input[imm_idx]);
            } else {
                return None;
            }
        }
        Some(op)
    }
}

/// Decoding of the six operand bits `arg`, taking its extra word, if it needs
/// one, from `ws[idx]`; `None` if that word is missing.
pub open spec fn spec_decode_operand(arg: u16, ws: Seq<u16>, idx: int) -> Option<Operand> {
    let mode = spec_addr_mode(arg / 8);
    let reg = spec_reg(arg % 8);
    if spec_needs_extra(mode, reg) {
        if 0 <= idx < ws.len() {
            let v = Expr::Atom(Atom::Val(ws[idx]));
            Some(
                Operand {
                    mode,
                    reg,
                    extra: if spec_is_relative(mode, reg) {
                        Extra::Rel(v)
                    } else {
                        Extra::Imm(v)
                    },
                },
            )
        } else {
            None
        }
    } else {
        Some(Operand { mode, reg, extra: Extra::Absent })
    }
}

/// The destination of a branch: a label, a temporary label referenced
/// forwards (`Nf`) or backwards (`Nb`), or a resolved word offset.
#[derive(Debug, Clone, Copy, PartialEq, Eq, Structural)]
pub enum Target {
    Label(usize),
    TmpLabelF(u16),
    TmpLabelB(u16),
    Offset(u8),
}

impl Target {
    /// The offset of a resolved target.
    pub fn unwrap_offset(&self) -> (r: u8)
        requires
            self is Offset,
        ensures
            r == self->Offset_0,
    {
        match self {
            Target::Offset(v) => *v,
            _ => 0,
        }
    }
}


/// Opcodes of double-operand instructions; the code is the top four bits.
#[derive(Debug, Clone, Copy, PartialEq, Eq, Structural)]
pub enum DoubleOperandOpcode {
    Mov,
    Cmp,
    Bit,
    Bic,
    Bis,
    Add,
    MovB,
    CmpB,
    BitB,
    BicB,
    BisB,
    Sub,
}

impl DoubleOperandOpcode {
    pub open spec fn spec_code(self) -> u16 {
        match self {
            DoubleOperandOpcode::Mov => 1,
            DoubleOperandOpcode::Cmp => 2,
            DoubleOperandOpcode::Bit => 3,
            DoubleOperandOpcode::Bic => 4,
            DoubleOperandOpcode::Bis => 5,
            DoubleOperandOpcode::Add => 6,
            DoubleOperandOpcode::MovB => 9,
            DoubleOperandOpcode::CmpB => 10,
            DoubleOperandOpcode::BitB => 11,
            DoubleOperandOpcode::BicB => 12,
            DoubleOperandOpcode::BisB => 13,
            DoubleOperandOpcode::Sub => 14,
        }
    }

    pub open spec fn spec_from_code(c: u16) -> Option<Self> {
        if c == 1 {
            Some(DoubleOperandOpcode::Mov)
        } else if c == 2 {
            Some(DoubleOperandOpcode::Cmp)
        } else if c == 3 {
            Some(DoubleOperandOpcode::Bit)
        } else if c == 4 {
            Some(DoubleOperandOpcode::Bic)
        } else if c == 5 {
            Some(DoubleOperandOpcode::Bis)
        } else if c == 6 {
            Some(DoubleOperandOpcode::Add)
        } else if c == 9 {
            Some(DoubleOperandOpcode::MovB)
        } else if c == 10 {
            Some(DoubleOperandOpcode::CmpB)
        } else if c == 11 {
            Some(DoubleOperandOpcode::BitB)
        } else if c == 12 {
            Some(DoubleOperandOpcode::BicB)
        } else if c == 13 {
            Some(DoubleOperandOpcode::BisB)
        } else if c == 14 {
            Some(DoubleOperandOpcode::Sub)
        } else {
            None
        }
    }

    pub fn code(&self) -> (r: u16)
        ensures
            r == self.spec_code(),
    {
        match self {
            DoubleOperandOpcode::Mov => 1,
            DoubleOperandOpcode::Cmp => 2,
            DoubleOperandOpcode::Bit => 3,
            DoubleOperandOpcode::Bic => 4,
            DoubleOperandOpcode::Bis => 5,
            DoubleOperandOpcode::Add => 6,
            DoubleOperandOpcode::MovB => 9,
            DoubleOperandOpcode::CmpB => 10,
            DoubleOperandOpcode::BitB => 11,
            DoubleOperandOpcode::BicB => 12,
            DoubleOperandOpcode::BisB => 13,
            DoubleOperandOpcode::Sub => 14,
        }
    }

    pub fn from_code(c: u16) -> (r: Option<Self>)
        ensures
            r == Self::spec_from_code(c),
    {
        match c {
            1 => Some(DoubleOperandOpcode::Mov),
            2 => Some(DoubleOperandOpcode::Cmp),
            3 => Some(DoubleOperandOpcode::Bit),
            4 => Some(DoubleOperandOpcode::Bic),
            5 => Some(DoubleOperandOpcode::Bis),
            6 => Some(DoubleOperandOpcode::Add),
            9 => Some(DoubleOperandOpcode::MovB),
            10 => Some(DoubleOperandOpcode::CmpB),
            11 => Some(DoubleOperandOpcode::BitB),
            12 => Some(DoubleOperandOpcode::BicB),
            13 => Some(DoubleOperandOpcode::BisB),
            14 => Some(DoubleOperandOpcode::Sub),
            _ => None,
        }
    }
}

/// Opcodes of branches; the code is the top eight bits.
#[derive(Debug, Clone, Copy, PartialEq, Eq, Structural)]
pub enum BranchOpcode {
    Br,
    Bne,
    Beq,
    Bge,
    Blt,
    Bgt,
    Ble,
    Bpl,
    Bmi,
    Bhi,
    Blos,
    Bvc,
    Bvs,
    Bcc,
    Bcs,
}

impl BranchOpcode {
    pub open spec fn spec_code(self) -> u16 {
        match self {
            BranchOpcode::Br => 1,
            BranchOpcode::Bne => 2,
            BranchOpcode::Beq => 3,
            BranchOpcode::Bge => 4,
            BranchOpcode::Blt => 5,
            BranchOpcode::Bgt => 6,
            BranchOpcode::Ble => 7,
            BranchOpcode::Bpl => 128,
            BranchOpcode::Bmi => 129,
            BranchOpcode::Bhi => 130,
            BranchOpcode::Blos => 131,
            BranchOpcode::Bvc => 132,
            BranchOpcode::Bvs => 133,
            BranchOpcode::Bcc => 134,
            BranchOpcode::Bcs => 135,
        }
    }

    pub open spec fn spec_from_code(c: u16) -> Option<Self> {
        if c == 1 {
            Some(BranchOpcode::Br)
        } else if c == 2 {
            Some(BranchOpcode::Bne)
        } else if c == 3 {
            Some(BranchOpcode::Beq)
        } else if c == 4 {
            Some(BranchOpcode::Bge)
        } else if c == 5 {
            Some(BranchOpcode::Blt)
        } else if c == 6 {
            Some(BranchOpcode::Bgt)
        } else if c == 7 {
            Some(BranchOpcode::Ble)
        } else if c == 128 {
            Some(BranchOpcode::Bpl)
        } else if c == 129 {
            Some(BranchOpcode::Bmi)
        } else if c == 130 {
            Some(BranchOpcode::Bhi)
        } else if c == 131 {
            Some(BranchOpcode::Blos)
        } else if c == 132 {
            Some(BranchOpcode::Bvc)
        } else if c == 133 {
            Some(BranchOpcode::Bvs)
        } else if c == 134 {
            Some(BranchOpcode::Bcc)
        } else if c == 135 {
            Some(BranchOpcode::Bcs)
        } else {
            None
        }
    }

    pub fn code(&self) -> (r: u16)
        ensures
            r == self.spec_code(),
    {
        match self {
            BranchOpcode::Br => 1,
            BranchOpcode::Bne => 2,
            BranchOpcode::Beq => 3,
            BranchOpcode::Bge => 4,
            BranchOpcode::Blt => 5,
            BranchOpcode::Bgt => 6,
            BranchOpcode::Ble => 7,
            BranchOpcode::Bpl => 128,
            BranchOpcode::Bmi => 129,
            BranchOpcode::Bhi => 130,
            BranchOpcode::Blos => 131,
            BranchOpcode::Bvc => 132,
            BranchOpcode::Bvs => 133,
            BranchOpcode::Bcc => 134,
            BranchOpcode::Bcs => 135,
        }
    }

    pub fn from_code(c: u16) -> (r: Option<Self>)
        ensures
            r == Self::spec_from_code(c),
    {
        match c {
            1 => Some(BranchOpcode::Br),
            2 => Some(BranchOpcode::Bne),
            3 => Some(BranchOpcode::Beq),
            4 => Some(BranchOpcode::Bge),
            5 => Some(BranchOpcode::Blt),
            6 => Some(BranchOpcode::Bgt),
            7 => Some(BranchOpcode::Ble),
            128 => Some(BranchOpcode::Bpl),
            129 => Some(BranchOpcode::Bmi),
            130 => Some(BranchOpcode::Bhi),
            131 => Some(BranchOpcode::Blos),
            132 => Some(BranchOpcode::Bvc),
            133 => Some(BranchOpcode::Bvs),
            134 => Some(BranchOpcode::Bcc),
            135 => Some(BranchOpcode::Bcs),
            _ => None,
        }
    }
}

/// Opcodes of the jump; the code is the top ten bits.
#[derive(Debug, Clone, Copy, PartialEq, Eq, Structural)]
pub enum JmpOpcode {
    Jmp,
}

impl JmpOpcode {
    pub open spec fn spec_code(self) -> u16 {
        match self {
            JmpOpcode::Jmp => 1,
        }
    }

    pub open spec fn spec_from_code(c: u16) -> Option<Self> {
        if c == 1 {
            Some(JmpOpcode::Jmp)
        } else {
            None
        }
    }

    pub fn code(&self) -> (r: u16)
        ensures
            r == self.spec_code(),
    {
        match self {
            JmpOpcode::Jmp => 1,
        }
    }

    pub fn from_code(c: u16) -> (r: Option<Self>)
        ensures
            r == Self::spec_from_code(c),
    {
        match c {
            1 => Some(JmpOpcode::Jmp),
            _ => None,
        }
    }
}

/// Opcodes of the subroutine call; the code is the top seven bits.
#[derive(Debug, Clone, Copy, PartialEq, Eq, Structural)]
pub enum JsrOpcode {
    Jsr,
}

impl JsrOpcode {
    pub open spec fn spec_code(self) -> u16 {
        match self {
            JsrOpcode::Jsr => 4,
        }
    }

    pub open spec fn spec_from_code(c: u16) -> Option<Self> {
        if c == 4 {
            Some(JsrOpcode::Jsr)
        } else {
            None
        }
    }

    pub fn code(&self) -> (r: u16)
        ensures
            r == self.spec_code(),
    {
        match self {
            JsrOpcode::Jsr => 4,
        }
    }

    pub fn from_code(c: u16) -> (r: Option<Self>)
        ensures
            r == Self::spec_from_code(c),
    {
        match c {
            4 => Some(JsrOpcode::Jsr),
            _ => None,
        }
    }
}

/// Opcodes of the subroutine return; the code is the top thirteen bits.
#[derive(Debug, Clone, Copy, PartialEq, Eq, Structural)]
pub enum RtsOpcode {
    Rts,
}

impl RtsOpcode {
    pub open spec fn spec_code(self) -> u16 {
        match self {
            RtsOpcode::Rts => 16,
        }
    }

    pub open spec fn spec_from_code(c: u16) -> Option<Self> {
        if c == 16 {
            Some(RtsOpcode::Rts)
        } else {
            None
        }
    }

    pub fn code(&self) -> (r: u16)
        ensures
            r == self.spec_code(),
    {
        match self {
            RtsOpcode::Rts => 16,
        }
    }

    pub fn from_code(c: u16) -> (r: Option<Self>)
        ensures
            r == Self::spec_from_code(c),
    {
        match c {
            16 => Some(RtsOpcode::Rts),
            _ => None,
        }
    }
}

/// Opcodes of single-operand instructions, rotates and their byte forms; the code is the top ten bits.
#[derive(Debug, Clone, Copy, PartialEq, Eq, Structural)]
pub enum SingleOperandOpcode {
    Swab,
    Clr,
    Com,
    Inc,
    Dec,
    Neg,
    Adc,
    Sbc,
    Tst,
    Ror,
    Rol,
    Asr,
    Asl,
    ClrB,
    ComB,
    IncB,
    DecB,
    NegB,
    AdcB,
    SbcB,
    TstB,
    RorB,
    RolB,
    AsrB,
    AslB,
}

impl SingleOperandOpcode {
    pub open spec fn spec_code(self) -> u16 {
        match self {
            SingleOperandOpcode::Swab => 3,
            SingleOperandOpcode::Clr => 40,
            SingleOperandOpcode::Com => 41,
            SingleOperandOpcode::Inc => 42,
            SingleOperandOpcode::Dec => 43,
            SingleOperandOpcode::Neg => 44,
            SingleOperandOpcode::Adc => 45,
            SingleOperandOpcode::Sbc => 46,
            SingleOperandOpcode::Tst => 47,
            SingleOperandOpcode::Ror => 48,
            SingleOperandOpcode::Rol => 49,
            SingleOperandOpcode::Asr => 50,
            SingleOperandOpcode::Asl => 51,
            SingleOperandOpcode::ClrB => 552,
            SingleOperandOpcode::ComB => 553,
            SingleOperandOpcode::IncB => 554,
            SingleOperandOpcode::DecB => 555,
            SingleOperandOpcode::NegB => 556,
            SingleOperandOpcode::AdcB => 557,
            SingleOperandOpcode::SbcB => 558,
            SingleOperandOpcode::TstB => 559,
            SingleOperandOpcode::RorB => 560,
            SingleOperandOpcode::RolB => 561,
            SingleOperandOpcode::AsrB => 562,
            SingleOperandOpcode::AslB => 563,
        }
    }

    pub open spec fn spec_from_code(c: u16) -> Option<Self> {
        if c == 3 {
            Some(SingleOperandOpcode::Swab)
        } else if c == 40 {
            Some(SingleOperandOpcode::Clr)
        } else if c == 41 {
            Some(SingleOperandOpcode::Com)
        } else if c == 42 {
            Some(SingleOperandOpcode::Inc)
        } else if c == 43 {
            Some(SingleOperandOpcode::Dec)
        } else if c == 44 {
            Some(SingleOperandOpcode::Neg)
        } else if c == 45 {
            Some(SingleOperandOpcode::Adc)
        } else if c == 46 {
            Some(SingleOperandOpcode::Sbc)
        } else if c == 47 {
            Some(SingleOperandOpcode::Tst)
        } else if c == 48 {
            Some(SingleOperandOpcode::Ror)
        } else if c == 49 {
            Some(SingleOperandOpcode::Rol)
        } else if c == 50 {
            Some(SingleOperandOpcode::Asr)
        } else if c == 51 {
            Some(SingleOperandOpcode::Asl)
        } else if c == 552 {
            Some(SingleOperandOpcode::ClrB)
        } else if c == 553 {
            Some(SingleOperandOpcode::ComB)
        } else if c == 554 {
            Some(SingleOperandOpcode::IncB)
        } else if c == 555 {
            Some(SingleOperandOpcode::DecB)
        } else if c == 556 {
            Some(SingleOperandOpcode::NegB)
        } else if c == 557 {
            Some(SingleOperandOpcode::AdcB)
        } else if c == 558 {
            Some(SingleOperandOpcode::SbcB)
        } else if c == 559 {
            Some(SingleOperandOpcode::TstB)
        } else if c == 560 {
            Some(SingleOperandOpcode::RorB)
        } else if c == 561 {
            Some(SingleOperandOpcode::RolB)
        } else if c == 562 {
            Some(SingleOperandOpcode::AsrB)
        } else if c == 563 {
            Some(SingleOperandOpcode::AslB)
        } else {
            None
        }
    }

    pub fn code(&self) -> (r: u16)
        ensures
            r == self.spec_code(),
    {
        match self {
            SingleOperandOpcode::Swab => 3,
            SingleOperandOpcode::Clr => 40,
            SingleOperandOpcode::Com => 41,
            SingleOperandOpcode::Inc => 42,
            SingleOperandOpcode::Dec => 43,
            SingleOperandOpcode::Neg => 44,
            SingleOperandOpcode::Adc => 45,
            SingleOperandOpcode::Sbc => 46,
            SingleOperandOpcode::Tst => 47,
            SingleOperandOpcode::Ror => 48,
            SingleOperandOpcode::Rol => 49,
            SingleOperandOpcode::Asr => 50,
            SingleOperandOpcode::Asl => 51,
            SingleOperandOpcode::ClrB => 552,
            SingleOperandOpcode::ComB => 553,
            SingleOperandOpcode::IncB => 554,
            SingleOperandOpcode::DecB => 555,
            SingleOperandOpcode::NegB => 556,
            SingleOperandOpcode::AdcB => 557,
            SingleOperandOpcode::SbcB => 558,
            SingleOperandOpcode::TstB => 559,
            SingleOperandOpcode::RorB => 560,
            SingleOperandOpcode::RolB => 561,
            SingleOperandOpcode::AsrB => 562,
            SingleOperandOpcode::AslB => 563,
        }
    }

    pub fn from_code(c: u16) -> (r: Option<Self>)
        ensures
            r == Self::spec_from_code(c),
    {
        match c {
            3 => Some(SingleOperandOpcode::Swab),
            40 => Some(SingleOperandOpcode::Clr),
            41 => Some(SingleOperandOpcode::Com),
            42 => Some(SingleOperandOpcode::Inc),
            43 => Some(SingleOperandOpcode::Dec),
            44 => Some(SingleOperandOpcode::Neg),
            45 => Some(SingleOperandOpcode::Adc),
            46 => Some(SingleOperandOpcode::Sbc),
            47 => Some(SingleOperandOpcode::Tst),
            48 => Some(SingleOperandOpcode::Ror),
            49 => Some(SingleOperandOpcode::Rol),
            50 => Some(SingleOperandOpcode::Asr),
            51 => Some(SingleOperandOpcode::Asl),
            552 => Some(SingleOperandOpcode::ClrB),
            553 => Some(SingleOperandOpcode::ComB),
            554 => Some(SingleOperandOpcode::IncB),
            555 => Some(SingleOperandOpcode::DecB),
            556 => Some(SingleOperandOpcode::NegB),
            557 => Some(SingleOperandOpcode::AdcB),
            558 => Some(SingleOperandOpcode::SbcB),
            559 => Some(SingleOperandOpcode::TstB),
            560 => Some(SingleOperandOpcode::RorB),
            561 => Some(SingleOperandOpcode::RolB),
            562 => Some(SingleOperandOpcode::AsrB),
            563 => Some(SingleOperandOpcode::AslB),
            _ => None,
        }
    }
}

/// Opcodes of the extended instruction set (and xor, which shares its format); the code is the top seven bits.
#[derive(Debug, Clone, Copy, PartialEq, Eq, Structural)]
pub enum EisOpcode {
    Mul,
    Div,
    Ash,
    Ashc,
    Xor,
}

impl EisOpcode {
    pub open spec fn spec_code(self) -> u16 {
        match self {
            EisOpcode::Mul => 56,
            EisOpcode::Div => 57,
            EisOpcode::Ash => 58,
            EisOpcode::Ashc => 59,
            EisOpcode::Xor => 60,
        }
    }

    pub open spec fn spec_from_code(c: u16) -> Option<Self> {
        if c == 56 {
            Some(EisOpcode::Mul)
        } else if c == 57 {
            Some(EisOpcode::Div)
        } else if c == 58 {
            Some(EisOpcode::Ash)
        } else if c == 59 {
            Some(EisOpcode::Ashc)
        } else if c == 60 {
            Some(EisOpcode::Xor)
        } else {
            None
        }
    }

    pub fn code(&self) -> (r: u16)
        ensures
            r == self.spec_code(),
    {
        match self {
            EisOpcode::Mul => 56,
            EisOpcode::Div => 57,
            EisOpcode::Ash => 58,
            EisOpcode::Ashc => 59,
            EisOpcode::Xor => 60,
        }
    }

    pub fn from_code(c: u16) -> (r: Option<Self>)
        ensures
            r == Self::spec_from_code(c),
    {
        match c {
            56 => Some(EisOpcode::Mul),
            57 => Some(EisOpcode::Div),
            58 => Some(EisOpcode::Ash),
            59 => Some(EisOpcode::Ashc),
            60 => Some(EisOpcode::Xor),
            _ => None,
        }
    }
}

/// Opcodes of condition-code operations; the code is the whole word.
#[derive(Debug, Clone, Copy, PartialEq, Eq, Structural)]
pub enum CCOpcode {
    Nop,
    Clc,
    Clv,
    Clz,
    Cln,
    Sec,
    Sev,
    Sez,
    Sen,
}

impl CCOpcode {
    pub open spec fn spec_code(self) -> u16 {
        match self {
            CCOpcode::Nop => 160,
            CCOpcode::Clc => 161,
            CCOpcode::Clv => 162,
            CCOpcode::Clz => 164,
            CCOpcode::Cln => 168,
            CCOpcode::Sec => 177,
            CCOpcode::Sev => 178,
            CCOpcode::Sez => 180,
            CCOpcode::Sen => 184,
        }
    }

    pub open spec fn spec_from_code(c: u16) -> Option<Self> {
        if c == 160 {
            Some(CCOpcode::Nop)
        } else if c == 161 {
            Some(CCOpcode::Clc)
        } else if c == 162 {
            Some(CCOpcode::Clv)
        } else if c == 164 {
            Some(CCOpcode::Clz)
        } else if c == 168 {
            Some(CCOpcode::Cln)
        } else if c == 177 {
            Some(CCOpcode::Sec)
        } else if c == 178 {
            Some(CCOpcode::Sev)
        } else if c == 180 {
            Some(CCOpcode::Sez)
        } else if c == 184 {
            Some(CCOpcode::Sen)
        } else {
            None
        }
    }

    pub fn code(&self) -> (r: u16)
        ensures
            r == self.spec_code(),
    {
        match self {
            CCOpcode::Nop => 160,
            CCOpcode::Clc => 161,
            CCOpcode::Clv => 162,
            CCOpcode::Clz => 164,
            CCOpcode::Cln => 168,
            CCOpcode::Sec => 177,
            CCOpcode::Sev => 178,
            CCOpcode::Sez => 180,
            CCOpcode::Sen => 184,
        }
    }

    pub fn from_code(c: u16) -> (r: Option<Self>)
        ensures
            r == Self::spec_from_code(c),
    {
        match c {
            160 => Some(CCOpcode::Nop),
            161 => Some(CCOpcode::Clc),
            162 => Some(CCOpcode::Clv),
            164 => Some(CCOpcode::Clz),
            168 => Some(CCOpcode::Cln),
            177 => Some(CCOpcode::Sec),
            178 => Some(CCOpcode::Sev),
            180 => Some(CCOpcode::Sez),
            184 => Some(CCOpcode::Sen),
            _ => None,
        }
    }
}

/// Opcodes of miscellaneous instructions; the code is the whole word.
#[derive(Debug, Clone, Copy, PartialEq, Eq, Structural)]
pub enum MiscOpcode {
    Halt,
    Wait,
    Rti,
    Iox,
    Iot,
    Reset,
}

impl MiscOpcode {
    pub open spec fn spec_code(self) -> u16 {
        match self {
            MiscOpcode::Halt => 0,
            MiscOpcode::Wait => 1,
            MiscOpcode::Rti => 2,
            MiscOpcode::Iox => 3,
            MiscOpcode::Iot => 4,
            MiscOpcode::Reset => 5,
        }
    }

    pub open spec fn spec_from_code(c: u16) -> Option<Self> {
        if c == 0 {
            Some(MiscOpcode::Halt)
        } else if c == 1 {
            Some(MiscOpcode::Wait)
        } else if c == 2 {
            Some(MiscOpcode::Rti)
        } else if c == 3 {
            Some(MiscOpcode::Iox)
        } else if c == 4 {
            Some(MiscOpcode::Iot)
        } else if c == 5 {
            Some(MiscOpcode::Reset)
        } else {
            None
        }
    }

    pub fn code(&self) -> (r: u16)
        ensures
            r == self.spec_code(),
    {
        match self {
            MiscOpcode::Halt => 0,
            MiscOpcode::Wait => 1,
            MiscOpcode::Rti => 2,
            MiscOpcode::Iox => 3,
            MiscOpcode::Iot => 4,
            MiscOpcode::Reset => 5,
        }
    }

    pub fn from_code(c: u16) -> (r: Option<Self>)
        ensures
            r == Self::spec_from_code(c),
    {
        match c {
            0 => Some(MiscOpcode::Halt),
            1 => Some(MiscOpcode::Wait),
            2 => Some(MiscOpcode::Rti),
            3 => Some(MiscOpcode::Iox),
            4 => Some(MiscOpcode::Iot),
            5 => Some(MiscOpcode::Reset),
            _ => None,
        }
    }
}

/// Opcodes of traps; the code is the top eight bits.
#[derive(Debug, Clone, Copy, PartialEq, Eq, Structural)]
pub enum TrapOpcode {
    Emt,
    Trap,
}

impl TrapOpcode {
    pub open spec fn spec_code(self) -> u16 {
        match self {
            TrapOpcode::Emt => 136,
            TrapOpcode::Trap => 137,
        }
    }

    pub open spec fn spec_from_code(c: u16) -> Option<Self> {
        if c == 136 {
            Some(TrapOpcode::Emt)
        } else if c == 137 {
            Some(TrapOpcode::Trap)
        } else {
            None
        }
    }

    pub fn code(&self) -> (r: u16)
        ensures
            r == self.spec_code(),
    {
        match self {
            TrapOpcode::Emt => 136,
            TrapOpcode::Trap => 137,
        }
    }

    pub fn from_code(c: u16) -> (r: Option<Self>)
        ensures
            r == Self::spec_from_code(c),
    {
        match c {
            136 => Some(TrapOpcode::Emt),
            137 => Some(TrapOpcode::Trap),
            _ => None,
        }
    }
}

/// A double-operand instruction (also the byte forms).
#[derive(Debug)]
pub struct DoubleOperandIns {
    pub op: DoubleOperandOpcode,
    pub src: Operand,
    pub dst: Operand,
}

/// A conditional or unconditional branch.
#[derive(Debug)]
pub struct BranchIns {
    pub op: BranchOpcode,
    pub target: Target,
}

/// The jump instruction.
#[derive(Debug)]
pub struct JmpIns {
    pub op: JmpOpcode,
    pub dst: Operand,
}

/// The subroutine call; `reg` is the linkage register.
#[derive(Debug)]
pub struct JsrIns {
    pub op: JsrOpcode,
    pub reg: Reg,
    pub dst: Operand,
}

/// The subroutine return through the linkage register `reg`.
#[derive(Debug)]
pub struct RtsIns {
    pub op: RtsOpcode,
    pub reg: Reg,
}

/// A single-operand instruction (also rotates and the byte forms).
#[derive(Debug)]
pub struct SingleOperandIns {
    pub op: SingleOperandOpcode,
    pub dst: Operand,
}

/// An instruction of the extended instruction set; `operand` is the source,
/// except for `xor`, where it is the destination.
#[derive(Debug)]
pub struct EisIns {
    pub op: EisOpcode,
    pub reg: Reg,
    pub operand: Operand,
}

/// A condition-code operation.
#[derive(Debug)]
pub struct CCIns {
    pub op: CCOpcode,
}

/// A miscellaneous instruction (halt, wait, rti, ...).
#[derive(Debug)]
pub struct MiscIns {
    pub op: MiscOpcode,
}

/// A trap instruction with its eight bits of data.
#[derive(Debug)]
pub struct TrapIns {
    pub op: TrapOpcode,
    pub data: Expr,
}

/// An instruction of any format.
#[derive(Debug)]
pub enum Ins {
    DoubleOperand(DoubleOperandIns),
    Branch(BranchIns),
    Jmp(JmpIns),
    Jsr(JsrIns),
    Rts(RtsIns),
    SingleOperand(SingleOperandIns),
    Eis(EisIns),
    CC(CCIns),
    Misc(MiscIns),
    Trap(TrapIns),
}


impl DoubleOperandIns {
    pub fn num_extra(&self) -> (r: u16)
        ensures
            r == self.src.spec_num_extra() + self.dst.spec_num_extra(),
    {
        self.src.num_extra() + self.dst.num_extra()
    }

    /// Appends the binary form of the instruction to `out`.
    #[verifier::spinoff_prover]
    #[verifier::rlimit(80)]
    pub fn emit(&self, out: &mut Vec<u8>)
        requires
            self.src.resolved(),
            self.dst.resolved(),
        ensures
            final(out)@ == old(out)@ + words_to_bytes(Ins::DoubleOperand(*self).spec_words()),
    {
        let bin = self.op.code() * 4096 + self.src.encode() * 64 + self.dst.encode();
        write_u16(out, bin);
        let ghost w0 = out@;
        if self.src.has_extra() {
            write_u16(out, self.src.extra.unwrap_val());
        }
        let ghost w1 = out@;
        if self.dst.has_extra() {
            write_u16(out, self.dst.extra.unwrap_val());
        }
        proof {
            let ws = Ins::DoubleOperand(*self).spec_words();
            let a = seq![bin];
            let b = a + self.src.extra_words();
            lemma_words_to_bytes_push(Seq::empty(), bin);
            assert(Seq::<u16>::empty().push(bin) =~= a);
            assert(words_to_bytes(Seq::<u16>::empty()) =~= Seq::<u8>::empty());
            if !(self.src.extra is Absent) {
                lemma_words_to_bytes_push(a, self.src.extra.spec_val());
                assert(a.push(self.src.extra.spec_val()) =~= b);
            } else {
                assert(a =~= b);
            }
            if !(self.dst.extra is Absent) {
                lemma_words_to_bytes_push(b, self.dst.extra.spec_val());
                assert(b.push(self.dst.extra.spec_val()) =~= ws);
            } else {
                assert(b =~= ws);
            }
            assert(final(out)@ =~= old(out)@ + words_to_bytes(ws));
        }
    }
}

/// Appends the instruction word and the extra word of `operand`, if it has
/// one.
fn emit_with_operand(bin: u16, operand: &Operand, out: &mut Vec<u8>)
    requires
        operand.resolved(),
    ensures
        final(out)@ == old(out)@ + words_to_bytes(seq![bin] + operand.extra_words()),
{
    write_u16(out, bin);
    if operand.has_extra() {
        write_u16(out, operand.extra.unwrap_val());
    }
    proof {
        let a = seq![bin];
        lemma_words_to_bytes_push(Seq::empty(), bin);
        assert(Seq::<u16>::empty().push(bin) =~= a);
        assert(words_to_bytes(Seq::<u16>::empty()) =~= Seq::<u8>::empty());
        if !(operand.extra is Absent) {
            lemma_words_to_bytes_push(a, operand.extra.spec_val());
            assert(a.push(operand.extra.spec_val()) =~= a + operand.extra_words());
        } else {
            assert(a =~= a + operand.extra_words());
        }
        assert(final(out)@ =~= old(out)@ + words_to_bytes(a + operand.extra_words()));
    }
}

/// Appends a one-word instruction.
fn emit_word(bin: u16, out: &mut Vec<u8>)
    ensures
        final(out)@ == old(out)@ + words_to_bytes(seq![bin]),
{
    write_u16(out, bin);
    proof {
        lemma_words_to_bytes_push(Seq::empty(), bin);
        assert(Seq::<u16>::empty().push(bin) =~= seq![bin]);
        assert(words_to_bytes(Seq::<u16>::empty()) =~= Seq::<u8>::empty());
    }
}

impl BranchIns {
    pub const OFFSET_NUM_BITS: usize = 8;

    pub const OFFSET_MASK: u16 = 255;

    pub fn num_extra(&self) -> (r: u16)
        ensures
            r == 0,
    {
        0
    }

    pub fn emit(&self, out: &mut Vec<u8>)
        requires
            self.target is Offset,
        ensures
            final(out)@ == old(out)@ + words_to_bytes(Ins::Branch(*self).spec_words()),
    {
        let offset = self.target.unwrap_offset();
        emit_word(self.op.code() * 256 + offset as u16, out);
    }
}

impl JmpIns {
    pub fn num_extra(&self) -> (r: u16)
        ensures
            r == self.dst.spec_num_extra(),
    {
        self.dst.num_extra()
    }

    pub fn emit(&self, out: &mut Vec<u8>)
        requires
            self.dst.resolved(),
        ensures
            final(out)@ == old(out)@ + words_to_bytes(Ins::Jmp(*self).spec_words()),
    {
        emit_with_operand(self.op.code() * 64 + self.dst.encode(), &self.dst, out);
    }
}

impl JsrIns {
    pub fn num_extra(&self) -> (r: u16)
        ensures
            r == self.dst.spec_num_extra(),
    {
        self.dst.num_extra()
    }

    pub fn emit(&self, out: &mut Vec<u8>)
        requires
            self.dst.resolved(),
        ensures
            final(out)@ == old(out)@ + words_to_bytes(Ins::Jsr(*self).spec_words()),
    {
        emit_with_operand(
            self.op.code() * 512 + self.reg.to_u16() * 64 + self.dst.encode(),
            &self.dst,
            out,
        );
    }
}

impl RtsIns {
    pub fn num_extra(&self) -> (r: u16)
        ensures
            r == 0,
    {
        0
    }

    pub fn emit(&self, out: &mut Vec<u8>)
        ensures
            final(out)@ == old(out)@ + words_to_bytes(Ins::Rts(*self).spec_words()),
    {
        emit_word(self.op.code() * 8 + self.reg.to_u16(), out);
    }
}

impl SingleOperandIns {
    pub fn num_extra(&self) -> (r: u16)
        ensures
            r == self.dst.spec_num_extra(),
    {
        self.dst.num_extra()
    }

    /// Whether the instruction operates on bytes.
    pub open spec fn spec_is_byte(&self) -> bool {
        self.op.spec_code() >= 552
    }

    pub fn is_byte(&self) -> (r: bool)
        ensures
            r == self.spec_is_byte(),
    {
        self.op.code() >= 552
    }

    pub fn emit(&self, out: &mut Vec<u8>)
        requires
            self.dst.resolved(),
        ensures
            final(out)@ == old(out)@ + words_to_bytes(Ins::SingleOperand(*self).spec_words()),
    {
        emit_with_operand(self.op.code() * 64 + self.dst.encode(), &self.dst, out);
    }
}

impl EisIns {
    pub fn num_extra(&self) -> (r: u16)
        ensures
            r == self.operand.spec_num_extra(),
    {
        self.operand.num_extra()
    }

    /// Division needs an even register, the low half of a register pair.
    pub open spec fn reg_ok(&self) -> bool {
        self.op == EisOpcode::Div ==> self.reg.spec_code() % 2 == 0
    }

    pub fn emit(&self, out: &mut Vec<u8>)
        requires
            self.operand.resolved(),
            self.reg_ok(),
        ensures
            final(out)@ == old(out)@ + words_to_bytes(Ins::Eis(*self).spec_words()),
    {
        emit_with_operand(
            self.op.code() * 512 + self.reg.to_u16() * 64 + self.operand.encode(),
            &self.operand,
            out,
        );
    }
}

impl CCIns {
    pub fn num_extra(&self) -> (r: u16)
        ensures
            r == 0,
    {
        0
    }

    pub fn emit(&self, out: &mut Vec<u8>)
        ensures
            final(out)@ == old(out)@ + words_to_bytes(Ins::CC(*self).spec_words()),
    {
        emit_word(self.op.code(), out);
    }
}

impl MiscIns {
    pub fn num_extra(&self) -> (r: u16)
        ensures
            r == 0,
    {
        0
    }

    pub fn emit(&self, out: &mut Vec<u8>)
        ensures
            final(out)@ == old(out)@ + words_to_bytes(Ins::Misc(*self).spec_words()),
    {
        emit_word(self.op.code(), out);
    }
}

impl TrapIns {
    pub const DATA_MASK: u16 = 255;

    pub fn num_extra(&self) -> (r: u16)
        ensures
            r == 0,
    {
        0
    }

    /// The data is a plain value that fits in eight bits.
    pub open spec fn data_ok(&self) -> bool {
        self.data.is_val() && self.data.spec_val() < 256
    }

    pub fn emit(&self, out: &mut Vec<u8>)
        requires
            self.data_ok(),
        ensures
            final(out)@ == old(out)@ + words_to_bytes(Ins::Trap(*self).spec_words()),
    {
        let data = self.data.unwrap_val();
        emit_word(self.op.code() * 256 + data, out);
    }
}

impl Ins {
    /// The first word of the binary form.
    pub open spec fn spec_first_word(self) -> u16 {
        match self {
            Ins::DoubleOperand(i) => (i.op.spec_code() * 4096 + i.src.spec_encode() * 64
                + i.dst.spec_encode()) as u16,
            Ins::Branch(i) => match i.target {
                Target::Offset(off) => (i.op.spec_code() * 256 + off) as u16,
                _ => 0,
            },
            Ins::Jmp(i) => (i.op.spec_code() * 64 + i.dst.spec_encode()) as u16,
            Ins::Jsr(i) => (i.op.spec_code() * 512 + i.reg.spec_code() * 64
                + i.dst.spec_encode()) as u16,
            Ins::Rts(i) => (i.op.spec_code() * 8 + i.reg.spec_code()) as u16,
            Ins::SingleOperand(i) => (i.op.spec_code() * 64 + i.dst.spec_encode()) as u16,
            Ins::Eis(i) => (i.op.spec_code() * 512 + i.reg.spec_code() * 64
                + i.operand.spec_encode()) as u16,
            Ins::CC(i) => i.op.spec_code(),
            Ins::Misc(i) => i.op.spec_code(),
            Ins::Trap(i) => (i.op.spec_code() * 256 + i.data.spec_val()) as u16,
        }
    }

    /// The binary form: the instruction word followed by the operands'
    /// extra words.
    pub open spec fn spec_words(self) -> Seq<u16> {
        let first = seq![self.spec_first_word()];
        match self {
            Ins::DoubleOperand(i) => first + i.src.extra_words() + i.dst.extra_words(),
            Ins::Jmp(i) => first + i.dst.extra_words(),
            Ins::Jsr(i) => first + i.dst.extra_words(),
            Ins::SingleOperand(i) => first + i.dst.extra_words(),
            Ins::Eis(i) => first + i.operand.extra_words(),
            _ => first,
        }
    }

    pub open spec fn spec_num_extra(self) -> u16 {
        match self {
            Ins::DoubleOperand(i) => (i.src.spec_num_extra() + i.dst.spec_num_extra()) as u16,
            Ins::Jmp(i) => i.dst.spec_num_extra(),
            Ins::Jsr(i) => i.dst.spec_num_extra(),
            Ins::SingleOperand(i) => i.dst.spec_num_extra(),
            Ins::Eis(i) => i.operand.spec_num_extra(),
            _ => 0,
        }
    }

    /// Size in bytes of the binary form.
    pub open spec fn spec_size(self) -> u16 {
        (2 + 2 * self.spec_num_extra()) as u16
    }

    /// Every expression of the instruction is a plain value, so it can be
    /// emitted.
    pub open spec fn resolved(self) -> bool {
        match self {
            Ins::DoubleOperand(i) => i.src.resolved() && i.dst.resolved(),
            Ins::Branch(i) => i.target is Offset,
            Ins::Jmp(i) => i.dst.resolved(),
            Ins::Jsr(i) => i.dst.resolved(),
            Ins::SingleOperand(i) => i.dst.resolved(),
            Ins::Eis(i) => i.operand.resolved(),
            Ins::Trap(i) => i.data_ok(),
            _ => true,
        }
    }

    /// Resolved, and a valid register for division.
    pub open spec fn emittable(self) -> bool {
        &&& self.resolved()
        &&& (self matches Ins::Eis(i) ==> i.reg_ok())
    }

    /// Every operand carries a resolved extra word exactly when its mode
    /// needs one (of either kind), a branch has an offset and trap data fits
    /// in a byte: the instruction can be encoded and read back.
    pub open spec fn well_shaped(self) -> bool {
        match self {
            Ins::DoubleOperand(i) => i.src.well_shaped() && i.dst.well_shaped(),
            Ins::Branch(i) => i.target is Offset,
            Ins::Jmp(i) => i.dst.well_shaped(),
            Ins::Jsr(i) => i.dst.well_shaped(),
            Ins::SingleOperand(i) => i.dst.well_shaped(),
            Ins::Eis(i) => i.operand.well_shaped(),
            Ins::Trap(i) => i.data_ok(),
            _ => true,
        }
    }

    /// The instruction with each operand in its canonical form.
    pub open spec fn canonical_form(self) -> Ins {
        match self {
            Ins::DoubleOperand(i) => Ins::DoubleOperand(
                DoubleOperandIns { src: i.src.canonical_form(), dst: i.dst.canonical_form(), ..i },
            ),
            Ins::Jmp(i) => Ins::Jmp(JmpIns { dst: i.dst.canonical_form(), ..i }),
            Ins::Jsr(i) => Ins::Jsr(JsrIns { dst: i.dst.canonical_form(), ..i }),
            Ins::SingleOperand(i) => Ins::SingleOperand(
                SingleOperandIns { dst: i.dst.canonical_form(), ..i },
            ),
            Ins::Eis(i) => Ins::Eis(EisIns { operand: i.operand.canonical_form(), ..i }),
            _ => self,
        }
    }

    /// The instruction is as decoding produces it: resolved, with canonical
    /// operands.
    pub open spec fn canonical(self) -> bool {
        match self {
            Ins::DoubleOperand(i) => i.src.canonical() && i.dst.canonical(),
            Ins::Branch(i) => i.target is Offset,
            Ins::Jmp(i) => i.dst.canonical(),
            Ins::Jsr(i) => i.dst.canonical(),
            Ins::SingleOperand(i) => i.dst.canonical(),
            Ins::Eis(i) => i.operand.canonical(),
            Ins::Trap(i) => i.data_ok(),
            _ => true,
        }
    }

    pub fn num_extra(&self) -> (r: u16)
        ensures
            r == self.spec_num_extra(),
            r <= 2,
    {
        match self {
            Ins::DoubleOperand(x) => x.num_extra(),
            Ins::Branch(x) => x.num_extra(),
            Ins::Jmp(x) => x.num_extra(),
            Ins::Jsr(x) => x.num_extra(),
            Ins::Rts(x) => x.num_extra(),
            Ins::SingleOperand(x) => x.num_extra(),
            Ins::Eis(x) => x.num_extra(),
            Ins::CC(x) => x.num_extra(),
            Ins::Misc(x) => x.num_extra(),
            Ins::Trap(x) => x.num_extra(),
        }
    }

    /// Size in bytes of the binary form.
    pub fn size(&self) -> (r: u16)
        ensures
            r == self.spec_size(),
            r == 2 * self.spec_words().len(),
            2 <= r <= 6,
    {
        WORD_SIZE + WORD_SIZE * self.num_extra()
    }

    /// Appends the binary form of the instruction to `out`.
    pub fn emit(&self, out: &mut Vec<u8>)
        requires
            self.emittable(),
        ensures
            final(out)@ == old(out)@ + words_to_bytes(self.spec_words()),
    {
        match self {
            Ins::DoubleOperand(x) => x.emit(out),
            Ins::Branch(x) => x.emit(out),
            Ins::Jmp(x) => x.emit(out),
            Ins::Jsr(x) => x.emit(out),
            Ins::Rts(x) => x.emit(out),
            Ins::SingleOperand(x) => x.emit(out),
            Ins::Eis(x) => x.emit(out),
            Ins::CC(x) => x.emit(out),
            Ins::Misc(x) => x.emit(out),
            Ins::Trap(x) => x.emit(out),
        }
    }

    /// Whether every expression of the instruction is a plain value.
    pub fn check_resolved(&self) -> (r: bool)
        ensures
            r == self.resolved(),
    {
        match self {
            Ins::DoubleOperand(i) => operand_resolved(&i.src) && operand_resolved(&i.dst),
            Ins::Branch(i) => matches!(i.target, Target::Offset(_)),
            Ins::Jmp(i) => operand_resolved(&i.dst),
            Ins::Jsr(i) => operand_resolved(&i.dst),
            Ins::SingleOperand(i) => operand_resolved(&i.dst),
            Ins::Eis(i) => operand_resolved(&i.operand),
            Ins::Trap(i) => i.data.check_resolved() && i.data.unwrap_val() < 256,
            _ => true,
        }
    }
}

fn operand_resolved(o: &Operand) -> (r: bool)
    ensures
        r == o.resolved(),
{
    match &o.extra {
        Extra::Absent => true,
        Extra::Imm(e) => e.check_resolved(),
        Extra::Rel(e) => e.check_resolved(),
    }
}

} // verus!
