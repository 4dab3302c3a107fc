//! Values of assembler expressions: a word and the kind of address it is.
use vstd::prelude::*;
use crate::isa::Op;

verus! {

/// The type of a value, as the Unix v6 manual calls it: undefined,
/// undefined external, absolute, relative to a section, external, register.
#[derive(Debug, Clone, Copy, PartialEq, Eq, Structural)]
pub enum Mode {
    Undef,
    UndefExt,
    Abs,
    Text,
    Data,
    Bss,
    Ext,
    Reg,
}

/// The type of `lhs op rhs`; `None` where the combination is not allowed.
/// Undefined operands give undefined results; absolute values combine
/// freely; a section-relative value may be moved by an absolute one and two
/// of the same section may be subtracted.
pub open spec fn spec_op_mode(lhs: Mode, op: Op, rhs: Mode) -> Option<Mode> {
    if lhs == Mode::Undef || rhs == Mode::Undef {
        Some(Mode::Undef)
    } else if lhs == Mode::Abs && rhs == Mode::Abs {
        Some(Mode::Abs)
    } else if op == Op::Add && rhs == Mode::Abs && (lhs == Mode::UndefExt || lhs == Mode::Text
        || lhs == Mode::Data || lhs == Mode::Bss) {
        Some(lhs)
    } else if op == Op::Sub && rhs == Mode::Abs && (lhs == Mode::Text || lhs == Mode::Data || lhs
        == Mode::Bss) {
        Some(lhs)
    } else if op == Op::Sub && lhs == rhs && (lhs == Mode::Text || lhs == Mode::Data || lhs
        == Mode::Bss) {
        Some(Mode::Abs)
    } else {
        None
    }
}

impl Mode {
    /// The type of `lhs op rhs`; see [`spec_op_mode`].
    pub fn op_mode(lhs: Mode, op: Op, rhs: Mode) -> (r: Option<Mode>)
        ensures
            r == spec_op_mode(lhs, op, rhs),
    {
        if lhs == Mode::Undef || rhs == Mode::Undef {
            Some(Mode::Undef)
        } else if lhs == Mode::Abs && rhs == Mode::Abs {
            Some(Mode::Abs)
        } else if op == Op::Add && rhs == Mode::Abs && (lhs == Mode::UndefExt || lhs == Mode::Text
            || lhs == Mode::Data || lhs == Mode::Bss) {
            Some(lhs)
        } else if op == Op::Sub && rhs == Mode::Abs && (lhs == Mode::Text || lhs == Mode::Data
            || lhs == Mode::Bss) {
            Some(lhs)
        } else if op == Op::Sub && lhs == rhs && (lhs == Mode::Text || lhs == Mode::Data || lhs
            == Mode::Bss) {
            Some(Mode::Abs)
        } else {
            None
        }
    }
}

/// A value: a word and its type.
#[derive(Debug, Clone, Copy, PartialEq, Eq, Structural)]
pub struct Value {
    pub val: u16,
    pub mode: Mode,
}

/// Why an expression has no value.
#[derive(Debug, Clone, Copy, PartialEq, Eq, Structural)]
pub enum EvalError {
    /// A symbol or label it uses is not known (yet).
    SymbolUnresolved,
    /// The types of the operands may not be combined so.
    IllegalExpr(Value, Op, Value),
}

/// The word of `lhs op rhs`: addition and subtraction wrap around.
pub open spec fn spec_op_val(lhs: u16, op: Op, rhs: u16) -> u16 {
    match op {
        Op::Add => ((lhs + rhs) % 65536) as u16,
        Op::Sub => ((lhs - rhs + 65536) % 65536) as u16,
        Op::And => lhs & rhs,
        Op::Or => lhs | rhs,
    }
}

/// `lhs op rhs`: the word and the type, or the error for types that may not
/// be combined.
pub open spec fn spec_apply(lhs: Value, op: Op, rhs: Value) -> Result<Value, EvalError> {
    match spec_op_mode(lhs.mode, op, rhs.mode) {
        Some(mode) => Ok(Value { val: spec_op_val(lhs.val, op, rhs.val), mode }),
        None => Err(EvalError::IllegalExpr(lhs, op, rhs)),
    }
}

impl Value {
    pub fn new(val: u16, mode: Mode) -> (r: Value)
        ensures
            r == (Value { val, mode }),
    {
        Value { val, mode }
    }

    /// `self op rhs`; see [`spec_apply`].
    pub fn apply(self, op: Op, rhs: Value) -> (r: Result<Value, EvalError>)
        ensures
            r == spec_apply(self, op, rhs),
    {
        match Mode::op_mode(self.mode, op, rhs.mode) {
            Some(mode) => {
                let val = match op {
                    Op::Add => self.val.wrapping_add(rhs.val),
                    Op::Sub => self.val.wrapping_sub(rhs.val),
                    Op::And => self.val & rhs.val,
                    Op::Or => self.val | rhs.val,
                };
                Ok(Value { val, mode })
            },
            None => Err(EvalError::IllegalExpr(self, op, rhs)),
        }
    }

    /// Addition; see [`spec_apply`].
    pub fn add(self, rhs: Value) -> (r: Result<Value, EvalError>)
        ensures
            r == spec_apply(self, Op::Add, rhs),
    {
        self.apply(Op::Add, rhs)
    }

    /// Subtraction; see [`spec_apply`].
    pub fn sub(self, rhs: Value) -> (r: Result<Value, EvalError>)
        ensures
            r == spec_apply(self, Op::Sub, rhs),
    {
        self.apply(Op::Sub, rhs)
    }

    /// Bitwise and; see [`spec_apply`].
    pub fn bitand(self, rhs: Value) -> (r: Result<Value, EvalError>)
        ensures
            r == spec_apply(self, Op::And, rhs),
    {
        self.apply(Op::And, rhs)
    }

    /// Bitwise or; see [`spec_apply`].
    pub fn bitor(self, rhs: Value) -> (r: Result<Value, EvalError>)
        ensures
            r == spec_apply(self, Op::Or, rhs),
    {
        self.apply(Op::Or, rhs)
    }
}

} // verus!
