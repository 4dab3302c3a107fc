//! Two passes over the statements resolve symbols and labels; then every
//! statement is emitted.
use vstd::prelude::*;
use vstd::string::StringSliceAdditionalSpecFns;
use std::collections::HashMap;
use crate::assembler::ir::{Cmd, CmdView, Label, Stmt, StmtView};
use crate::assembler::misc::{spec_apply, EvalError, Mode, Value};
use crate::assembler::tmp_f_tracker::TmpFTracker;
use crate::emulator::alu::trunc_div;
use crate::isa::{Atom, BranchIns, Expr, Extra, Ins, Operand, Target, TrapIns};
use crate::assembler::front::{interned, names_view, parse_program, s_parse};
use crate::assembler::lexer::{lex_from, Token};

verus! {

/// What a symbol is: one given a value by `=`, or a label.
#[derive(Debug, Clone, Copy, PartialEq, Eq, Structural)]
pub enum SymbolType {
    Regular,
    Label,
}

/// The sections of a program.
#[derive(Debug, Clone, Copy, PartialEq, Eq, Structural)]
pub enum Sect {
    Text,
    Data,
    Bss,
}

impl Sect {
    /// The type of addresses in the section.
    pub fn mode(&self) -> (r: Mode)
        ensures
            r == match self {
                Sect::Text => Mode::Text,
                Sect::Data => Mode::Data,
                Sect::Bss => Mode::Bss,
            },
    {
        match self {
            Sect::Text => Mode::Text,
            Sect::Data => Mode::Data,
            Sect::Bss => Mode::Bss,
        }
    }
}

/// The value of a symbol, its kind, and the statement (counted from 1)
/// that defined it.
#[derive(Debug, Clone, Copy, PartialEq, Eq, Structural)]
pub struct SymbolValue {
    pub val: u16,
    pub mode: Mode,
    pub typ: SymbolType,
    pub line: usize,
}

/// Why a program cannot be assembled; lines are counted from 1. A program
/// that breaks a rule of the assembler gives one of these values; assembling
/// never stops the process.
#[derive(Debug, Clone, Copy, PartialEq, Eq, Structural)]
pub enum AsmError {
    /// A source line that is not a statement.
    Syntax(usize),
    /// An expression combines values whose types do not allow it.
    IllegalExpr(usize),
    /// A relative operand names a value of another section.
    RelativeMode(usize),
    /// A branch target more than 128 words back or 127 ahead.
    BranchRange(usize),
    /// The data of a trap instruction does not fit in a byte.
    TrapData(usize),
    /// `. =` moves the location counter backwards.
    LocBackwards(usize),
    /// A label defined a second time.
    LabelConflict(usize),
    /// A symbol given a value with the name of a label.
    SymbolConflict(usize),
    /// A backward reference to a temporary label not defined before.
    TmpLabelUndefined(usize),
    /// An expression still unresolved after the passes.
    Unresolved(usize),
    /// A `.byte` value above 255.
    ByteRange(usize),
    /// The program runs past the last address.
    AddressOverflow(usize),
    /// Division into an odd register.
    OddDivisionRegister(usize),
    /// The program defines no `_start`.
    NoStart,
}

/// The value a map of definitions gives `key`, if any.
pub open spec fn lookup<K>(defs: Map<K, SymbolValue>, key: K) -> Option<SymbolValue> {
    if defs.contains_key(key) {
        Some(defs[key])
    } else {
        None
    }
}

/// The state of the assembler between statements: the values of symbols
/// and of temporary labels (a new definition replaces the old one), the lines waiting for
/// temporary labels and the addresses found for them, the current statement,
/// the location counter (start of the statement or word) and the address;
/// and whether a relative operand counts from the address after its extra
/// word (`rel_after`) or from the address of that word.
pub struct AsmState {
    pub symbols: Map<usize, SymbolValue>,
    pub tmp: Map<u16, SymbolValue>,
    pub needs: Set<(u16, usize)>,
    pub found: spec_fn(usize, u16) -> Option<(u16, Mode)>,
    pub line: usize,
    pub loc: u16,
    pub addr: u16,
    pub rel_after: bool,
}

/// The value of an atom, and the state after (a forward reference not yet
/// resolvable is recorded as waiting).
pub open spec fn s_eval_atom(st: AsmState, a: Atom) -> (Result<Value, EvalError>, AsmState) {
    match a {
        Atom::Loc => (Ok(Value { val: st.loc, mode: Mode::Text }), st),
        Atom::Val(v) => (Ok(Value { val: v, mode: Mode::Abs }), st),
        Atom::SymbolRef(id) => (
            match lookup(st.symbols, id) {
                Some(sv) => Ok(Value { val: sv.val, mode: sv.mode }),
                None => Err(EvalError::SymbolUnresolved),
            },
            st,
        ),
        Atom::TmpSymbolFRef(n) => match (st.found)(st.line, n) {
            Some((a, m)) => (Ok(Value { val: a, mode: m }), st),
            None => (
                Err(EvalError::SymbolUnresolved),
                AsmState { needs: st.needs.insert((n, st.line)), ..st },
            ),
        },
        Atom::TmpSymbolBRef(n) => (
            match lookup(st.tmp, n) {
                Some(sv) => Ok(Value { val: sv.val, mode: sv.mode }),
                None => Err(EvalError::SymbolUnresolved),
            },
            st,
        ),
    }
}

/// The value of an expression, from the left, stopping at the first error.
pub open spec fn s_eval_expr(st: AsmState, e: Expr) -> (Result<Value, EvalError>, AsmState)
    decreases e,
{
    match e {
        Expr::Atom(a) => s_eval_atom(st, a),
        Expr::Op(lhs, op, rhs) => {
            let (l, st1) = s_eval_expr(st, *lhs);
            match l {
                Ok(lv) => {
                    let (r, st2) = s_eval_atom(st1, rhs);
                    match r {
                        Ok(rv) => (spec_apply(lv, op, rv), st2),
                        Err(err) => (Err(err), st2),
                    }
                },
                Err(err) => (Err(err), st1),
            }
        },
    }
}

/// Evaluating an expression changes nothing but the lines waiting for
/// temporary labels.
pub proof fn lemma_eval_expr_frame(st: AsmState, e: Expr)
    ensures
        s_eval_expr(st, e).1 == (AsmState { needs: s_eval_expr(st, e).1.needs, ..st }),
    decreases e,
{
    match e {
        Expr::Atom(a) => {},
        Expr::Op(lhs, op, rhs) => {
            lemma_eval_expr_frame(st, *lhs);
        },
    }
}

/// The state with the address moved by `n` bytes; `None` past the last
/// address.
pub open spec fn advance(st: AsmState, n: int) -> Option<AsmState> {
    if st.addr + n <= 0xffff {
        Some(AsmState { addr: (st.addr + n) as u16, ..st })
    } else {
        None
    }
}

/// An operand with its extra word evaluated: an immediate value as is, a
/// relative one as the offset from the address after the word (or from the
/// word's own address where `rel_after` is false), which is then kept as a
/// plain value. Unresolved operands stay as they are; the
/// address moves past the word.
pub open spec fn s_eval_operand(st: AsmState, o: Operand) -> Result<(Operand, AsmState), AsmError> {
    match o.extra {
        Extra::Absent => Ok((o, st)),
        Extra::Imm(e) => {
            let (r, st1) = s_eval_expr(st, e);
            match r {
                Err(EvalError::IllegalExpr(_, _, _)) => Err(AsmError::IllegalExpr(st.line)),
                _ => match advance(st1, 2) {
                    None => Err(AsmError::AddressOverflow(st.line)),
                    Some(st2) => match r {
                        Ok(v) => Ok(
                            (Operand { extra: Extra::Imm(Expr::Atom(Atom::Val(v.val))), ..o }, st2),
                        ),
                        _ => Ok((o, st2)),
                    },
                },
            }
        },
        Extra::Rel(e) => {
            let (r, st1) = s_eval_expr(st, e);
            match r {
                Err(EvalError::IllegalExpr(_, _, _)) => Err(AsmError::IllegalExpr(st.line)),
                Ok(v) if v.mode != Mode::Abs && v.mode != Mode::Text => Err(
                    AsmError::RelativeMode(st.line),
                ),
                _ => match advance(st1, 2) {
                    None => Err(AsmError::AddressOverflow(st.line)),
                    Some(st2) => match r {
                        Ok(v) => Ok(
                            (
                                Operand {
                                    extra: Extra::Imm(
                                        Expr::Atom(
                                            Atom::Val(
                                                ((v.val - st1.addr - (if st1.rel_after {
                                                    2int
                                                } else {
                                                    0int
                                                }) + 0x20000) % 65536) as u16,
                                            ),
                                        ),
                                    ),
                                    ..o
                                },
                                st2,
                            ),
                        ),
                        _ => Ok((o, st2)),
                    },
                },
            }
        },
    }
}

/// The branch offset to `target` from the branch at `loc`: the word
/// distance from the word after the branch, truncated toward zero; `None`
/// beyond a signed byte.
pub open spec fn branch_offset(target: u16, loc: u16) -> Option<u8> {
    let q = trunc_div(target - loc - 2, 2);
    if -128 <= q <= 127 {
        Some(((q + 256) % 256) as u8)
    } else {
        None
    }
}

/// A branch assembled at `loc` to a label at `target`, an even distance
/// away, lands on the label when the emulator takes it: the PC, at the word
/// after the branch, moves by the offset's displacement to `target`. The
/// offset exists exactly when the label lies within 128 words back or 127
/// words ahead of that word.
pub proof fn lemma_branch_offset_lands(target: u16, loc: u16)
    requires
        (target - loc) % 2 == 0,
    ensures
        branch_offset(target, loc) is Some <==> (-256 <= target - loc - 2 <= 254),
        branch_offset(target, loc) matches Some(off) ==> (loc + 2
            + crate::emulator::emulator::branch_disp(off) + 65536) % 65536 == target,
{
    let d = target - loc - 2;
    let q = trunc_div(d, 2);
    assert(d % 2 == 0);
    assert(q * 2 == d);
}

/// A branch target resolved to an offset where its label is known.
pub open spec fn s_eval_target(st: AsmState, t: Target) -> Result<(Target, AsmState), AsmError> {
    let to = |a: u16|
        match branch_offset(a, st.loc) {
            Some(off) => Ok((Target::Offset(off), st)),
            None => Err(AsmError::BranchRange(st.line)),
        };
    match t {
        Target::Offset(_) => Ok((t, st)),
        Target::Label(id) => match lookup(st.symbols, id) {
            Some(sv) => to(sv.val),
            None => Ok((t, st)),
        },
        Target::TmpLabelF(n) => match (st.found)(st.line, n) {
            Some((a, _)) => to(a),
            None => Ok((t, AsmState { needs: st.needs.insert((n, st.line)), ..st })),
        },
        Target::TmpLabelB(n) => match lookup(st.tmp, n) {
            Some(sv) => to(sv.val),
            None => Err(AsmError::TmpLabelUndefined(st.line)),
        },
    }
}

/// An instruction with its operands evaluated (the address first moves past
/// the instruction word).
#[verifier::opaque]
pub open spec fn s_eval_ins(st: AsmState, ins: Ins) -> Result<(Ins, AsmState), AsmError> {
    match advance(st, 2) {
        None => Err(AsmError::AddressOverflow(st.line)),
        Some(st1) => match ins {
            Ins::Branch(b) => match s_eval_target(st1, b.target) {
                Ok((target, st2)) => Ok((Ins::Branch(BranchIns { target, ..b }), st2)),
                Err(e) => Err(e),
            },
            Ins::DoubleOperand(d) => match s_eval_operand(st1, d.src) {
                Ok((src, st2)) => match s_eval_operand(st2, d.dst) {
                    Ok((dst, st3)) => Ok(
                        (Ins::DoubleOperand(crate::isa::DoubleOperandIns { op: d.op, src, dst }), st3),
                    ),
                    Err(e) => Err(e),
                },
                Err(e) => Err(e),
            },
            Ins::Jmp(j) => match s_eval_operand(st1, j.dst) {
                Ok((dst, st2)) => Ok((Ins::Jmp(crate::isa::JmpIns { op: j.op, dst }), st2)),
                Err(e) => Err(e),
            },
            Ins::Jsr(j) => match s_eval_operand(st1, j.dst) {
                Ok((dst, st2)) => Ok(
                    (Ins::Jsr(crate::isa::JsrIns { op: j.op, reg: j.reg, dst }), st2),
                ),
                Err(e) => Err(e),
            },
            Ins::SingleOperand(s) => match s_eval_operand(st1, s.dst) {
                Ok((dst, st2)) => Ok(
                    (Ins::SingleOperand(crate::isa::SingleOperandIns { op: s.op, dst }), st2),
                ),
                Err(e) => Err(e),
            },
            Ins::Eis(x) => match s_eval_operand(st1, x.operand) {
                Ok((operand, st2)) => Ok(
                    (Ins::Eis(crate::isa::EisIns { op: x.op, reg: x.reg, operand }), st2),
                ),
                Err(e) => Err(e),
            },
            Ins::Trap(t) => {
                let (r, st2) = s_eval_expr(st1, t.data);
                match r {
                    Ok(v) => if v.val < 256 {
                        Ok((Ins::Trap(TrapIns { op: t.op, data: Expr::Atom(Atom::Val(v.val)) }), st2))
                    } else {
                        Err(AsmError::TrapData(st.line))
                    },
                    Err(_) => Ok((Ins::Trap(t), st2)),
                }
            },
            _ => Ok((ins, st1)),
        },
    }
}

/// The expressions of `.byte` (`width` 1) or `.word` (`width` 2) from `k`
/// on, each replaced by its value where it has one; the location counter
/// and the address move by `width` for each.
pub open spec fn s_eval_data(st: AsmState, es: Seq<Expr>, k: int, width: int) -> Result<
    (Seq<Expr>, AsmState),
    AsmError,
>
    decreases es.len() - k,
{
    if k < 0 || k >= es.len() {
        Ok((Seq::empty(), st))
    } else {
        let (r, st1) = s_eval_expr(st, es[k]);
        let e = match r {
            Ok(v) => Expr::Atom(Atom::Val(v.val)),
            Err(_) => es[k],
        };
        if st1.addr + width > 0xffff || st1.loc + width > 0xffff {
            Err(AsmError::AddressOverflow(st.line))
        } else {
            let st2 = AsmState {
                addr: (st1.addr + width) as u16,
                loc: (st1.loc + width) as u16,
                ..st1
            };
            match s_eval_data(st2, es, k + 1, width) {
                Ok((rest, st3)) => Ok((seq![e] + rest, st3)),
                Err(err) => Err(err),
            }
        }
    }
}

/// A command evaluated, and the state after it.
#[verifier::opaque]
pub open spec fn s_eval_cmd(st: AsmState, c: CmdView) -> Result<(CmdView, AsmState), AsmError> {
    match c {
        CmdView::SymbolDef(id, e) => {
            let (r, st1) = s_eval_expr(st, e);
            match r {
                Ok(v) => match lookup(st1.symbols, id) {
                    Some(prev) if prev.typ == SymbolType::Label => Err(
                        AsmError::SymbolConflict(st.line),
                    ),
                    _ => Ok(
                        (
                            c,
                            AsmState {
                                symbols: st1.symbols.insert(
                                    id,
                                    SymbolValue {
                                        val: v.val,
                                        mode: v.mode,
                                        typ: SymbolType::Regular,
                                        line: st.line,
                                    },
                                ),
                                ..st1
                            },
                        ),
                    ),
                },
                Err(_) => Ok((c, st1)),
            }
        },
        CmdView::Ins(ins) => match s_eval_ins(st, ins) {
            Ok((i, st1)) => Ok((CmdView::Ins(i), st1)),
            Err(e) => Err(e),
        },
        CmdView::Bytes(es) => match s_eval_data(st, es, 0, 1) {
            Ok((es1, st1)) => Ok((CmdView::Bytes(es1), st1)),
            Err(e) => Err(e),
        },
        CmdView::Words(es) => match s_eval_data(st, es, 0, 2) {
            Ok((es1, st1)) => Ok((CmdView::Words(es1), st1)),
            Err(e) => Err(e),
        },
        CmdView::LocDef(e) => {
            let (r, st1) = s_eval_expr(st, e);
            match r {
                Ok(v) => if v.val < st1.addr {
                    Err(AsmError::LocBackwards(st.line))
                } else {
                    Ok((CmdView::LocDef(Expr::Atom(Atom::Val(v.val))), AsmState { addr: v.val, ..st1 }))
                },
                Err(_) => Ok((c, st1)),
            }
        },
        CmdView::Even => match advance(st, (st.addr % 2) as int) {
            Some(st1) => Ok((c, st1)),
            None => Err(AsmError::AddressOverflow(st.line)),
        },
        CmdView::Ascii(bytes) => match advance(st, bytes.len() as int) {
            Some(st1) => Ok((c, st1)),
            None => Err(AsmError::AddressOverflow(st.line)),
        },
    }
}

/// A statement (the `k`-th, counted from 0) evaluated: its label defined at
/// the address (a temporary one also resolving the lines waiting for it),
/// the location counter set to the address, then its command.
#[verifier::opaque]
pub open spec fn s_eval_stmt(st: AsmState, k: int, s: StmtView) -> Result<(StmtView, AsmState), AsmError> {
    let line = (k + 1) as usize;
    let st0 = AsmState { line, ..st };
    let here = SymbolValue { val: st.addr, mode: Mode::Text, typ: SymbolType::Label, line };
    let labelled = match s.label_def {
        Label::Regular(id) => match lookup(st0.symbols, id) {
            Some(prev) if prev.line != line => Err(AsmError::LabelConflict(line)),
            _ => Ok(AsmState { symbols: st0.symbols.insert(id, here), ..st0 }),
        },
        Label::Tmp(n) => Ok(
            AsmState {
                tmp: st0.tmp.insert(n, here),
                needs: st0.needs.filter(|p: (u16, usize)| p.0 != n),
                found: |l: usize, b: u16|
                    if b == n && st0.needs.contains((n, l)) {
                        Some((st0.addr, Mode::Text))
                    } else {
                        (st0.found)(l, b)
                    },
                ..st0
            },
        ),
        Label::Absent => Ok(st0),
    };
    match labelled {
        Err(e) => Err(e),
        Ok(st1) => {
            let st2 = AsmState { loc: st1.addr, ..st1 };
            match s.cmd {
                None => Ok((s, st2)),
                Some(c) => match s_eval_cmd(st2, c) {
                    Ok((c1, st3)) => Ok((StmtView { label_def: s.label_def, cmd: Some(c1) }, st3)),
                    Err(e) => Err(e),
                },
            }
        },
    }
}

/// The statements from `k` on evaluated in order.
pub open spec fn s_eval_stmts(st: AsmState, ss: Seq<StmtView>, k: int) -> Result<
    (Seq<StmtView>, AsmState),
    AsmError,
>
    decreases ss.len() - k,
{
    if k < 0 || k >= ss.len() {
        Ok((Seq::empty(), st))
    } else {
        match s_eval_stmt(st, k, ss[k]) {
            Ok((s1, st1)) => match s_eval_stmts(st1, ss, k + 1) {
                Ok((rest, st2)) => Ok((seq![s1] + rest, st2)),
                Err(e) => Err(e),
            },
            Err(e) => Err(e),
        }
    }
}

/// One pass: temporary labels forgotten, the address back to zero, every
/// statement evaluated.
pub open spec fn s_pass(st: AsmState, ss: Seq<StmtView>) -> Result<(Seq<StmtView>, AsmState), AsmError> {
    s_eval_stmts(AsmState { tmp: Map::empty(), addr: 0, ..st }, ss, 0)
}

/// The state before the first pass.
pub open spec fn initial_state(rel_after: bool) -> AsmState {
    AsmState {
        symbols: Map::empty(),
        tmp: Map::empty(),
        needs: Set::empty(),
        found: |l: usize, b: u16| None,
        line: 0,
        loc: 0,
        addr: 0,
        rel_after,
    }
}

/// The two passes over the statements.
pub open spec fn s_resolve(ss: Seq<StmtView>, rel_after: bool) -> Result<(Seq<StmtView>, AsmState), AsmError> {
    match s_pass(initial_state(rel_after), ss) {
        Ok((ss1, st1)) => s_pass(st1, ss1),
        Err(e) => Err(e),
    }
}

/// The views of a list of statements.
pub open spec fn stmts_view(ss: Seq<Stmt>) -> Seq<StmtView> {
    ss.map_values(|s: Stmt| s.view())
}

struct Assembler {
    symbols: HashMap<usize, SymbolValue>,
    tmp_symbols: HashMap<u16, SymbolValue>,
    sect: Sect,
    tmp_f_tracker: TmpFTracker,
    line: usize,
    loc: u16,
    addr: u16,
    rel_after: bool,
}

fn last_symbol(defs: &HashMap<usize, SymbolValue>, key: usize) -> (r: Option<SymbolValue>)
    ensures
        r == lookup(defs@, key),
{
    broadcast use vstd::std_specs::hash::group_hash_axioms;

    match defs.get(&key) {
        Some(v) => Some(*v),
        None => None,
    }
}

fn last_tmp(defs: &HashMap<u16, SymbolValue>, key: u16) -> (r: Option<SymbolValue>)
    ensures
        r == lookup(defs@, key),
{
    broadcast use vstd::std_specs::hash::group_hash_axioms;

    match defs.get(&key) {
        Some(v) => Some(*v),
        None => None,
    }
}

/// The branch offset; see [`branch_offset`].
fn branch_offset_exec(target: u16, loc: u16) -> (r: Option<u8>)
    ensures
        r == branch_offset(target, loc),
{
    let d: i64 = target as i64 - loc as i64 - 2;
    let q: i64 = if d >= 0 { d / 2 } else { -((-d) / 2) };
    if -128 <= q && q <= 127 {
        Some(((q + 256) % 256) as u8)
    } else {
        None
    }
}

impl Assembler {
    /// The assembler is in state `st`.
    spec fn models(&self, st: AsmState) -> bool {
        &&& self.symbols@ == st.symbols
        &&& self.tmp_symbols@ == st.tmp
        &&& self.tmp_f_tracker.needs() == st.needs
        &&& forall|l: usize, b: u16| #[trigger] self.tmp_f_tracker.found_at(l, b) == (st.found)(l, b)
        &&& self.line == st.line
        &&& self.loc == st.loc
        &&& self.addr == st.addr
        &&& self.rel_after == st.rel_after
        &&& self.sect == Sect::Text
    }

    fn new(rel_after: bool) -> (r: Assembler)
        ensures
            r.models(initial_state(rel_after)),
    {
        Assembler {
            symbols: HashMap::new(),
            tmp_symbols: HashMap::new(),
            sect: Sect::Text,
            tmp_f_tracker: TmpFTracker::new(),
            line: 0,
            loc: 0,
            addr: 0,
            rel_after,
        }
    }

    fn eval_atom(&mut self, a: Atom, Ghost(st): Ghost<AsmState>) -> (r: Result<Value, EvalError>)
        requires
            old(self).models(st),
        ensures
            r == s_eval_atom(st, a).0,
            final(self).models(s_eval_atom(st, a).1),
    {
        match a {
            Atom::Loc => Ok(Value::new(self.loc, self.sect.mode())),
            Atom::Val(v) => Ok(Value::new(v, Mode::Abs)),
            Atom::SymbolRef(id) => match last_symbol(&self.symbols, id) {
                Some(sv) => Ok(Value::new(sv.val, sv.mode)),
                None => Err(EvalError::SymbolUnresolved),
            },
            Atom::TmpSymbolFRef(n) => match self.tmp_f_tracker.get(self.line, n) {
                Some((addr, mode)) => Ok(Value::new(addr, mode)),
                None => {
                    self.tmp_f_tracker.need(self.line, n);
                    Err(EvalError::SymbolUnresolved)
                },
            },
            Atom::TmpSymbolBRef(n) => match last_tmp(&self.tmp_symbols, n) {
                Some(sv) => Ok(Value::new(sv.val, sv.mode)),
                None => Err(EvalError::SymbolUnresolved),
            },
        }
    }

    fn eval_expr(&mut self, e: &Expr, Ghost(st): Ghost<AsmState>) -> (r: Result<Value, EvalError>)
        requires
            old(self).models(st),
        ensures
            r == s_eval_expr(st, *e).0,
            final(self).models(s_eval_expr(st, *e).1),
        decreases e,
    {
        match e {
            Expr::Atom(a) => self.eval_atom(*a, Ghost(st)),
            Expr::Op(lhs, op, rhs) => {
                let ghost st1 = s_eval_expr(st, **lhs).1;
                let lv = self.eval_expr(lhs, Ghost(st))?;
                let rv = self.eval_atom(*rhs, Ghost(st1))?;
                lv.apply(*op, rv)
            },
        }
    }

    fn eval_operand(&mut self, o: &Operand, Ghost(st): Ghost<AsmState>) -> (r: Result<
        Operand,
        AsmError,
    >)
        requires
            old(self).models(st),
        ensures
            match s_eval_operand(st, *o) {
                Ok((o1, st1)) => r == Ok::<Operand, AsmError>(o1) && final(self).models(st1),
                Err(e) => r == Err::<Operand, AsmError>(e),
            },
    {
        let line = self.line;
        match &o.extra {
            Extra::Absent => Ok(o.copy()),
            Extra::Imm(e) => {
                let r = self.eval_expr(e, Ghost(st));
                if let Err(EvalError::IllegalExpr(_, _, _)) = r {
                    return Err(AsmError::IllegalExpr(line));
                }
                if self.addr > 0xffff - 2 {
                    return Err(AsmError::AddressOverflow(line));
                }
                self.addr = self.addr + 2;
                match r {
                    Ok(v) => Ok(
                        Operand { mode: o.mode, reg: o.reg, extra: Extra::Imm(Expr::Atom(Atom::Val(v.val))) },
                    ),
                    _ => Ok(o.copy()),
                }
            },
            Extra::Rel(e) => {
                let r = self.eval_expr(e, Ghost(st));
                if let Err(EvalError::IllegalExpr(_, _, _)) = r {
                    return Err(AsmError::IllegalExpr(line));
                }
                if let Ok(v) = r {
                    if v.mode != Mode::Abs && v.mode != Mode::Text {
                        return Err(AsmError::RelativeMode(line));
                    }
                }
                if self.addr > 0xffff - 2 {
                    return Err(AsmError::AddressOverflow(line));
                }
                let here = self.addr;
                self.addr = self.addr + 2;
                match r {
                    Ok(v) => {
                        let gap: u16 = if self.rel_after {
                            2
                        } else {
                            0
                        };
                        let off = v.val.wrapping_sub(here).wrapping_sub(gap);
                        proof {
                            assert(off == ((v.val - here - gap + 0x20000) % 65536) as u16);
                        }
                        Ok(Operand { mode: o.mode, reg: o.reg, extra: Extra::Imm(Expr::Atom(Atom::Val(off))) })
                    },
                    _ => Ok(o.copy()),
                }
            },
        }
    }

    fn eval_target(&mut self, t: Target, Ghost(st): Ghost<AsmState>) -> (r: Result<Target, AsmError>)
        requires
            old(self).models(st),
        ensures
            match s_eval_target(st, t) {
                Ok((t1, st1)) => r == Ok::<Target, AsmError>(t1) && final(self).models(st1),
                Err(e) => r == Err::<Target, AsmError>(e),
            },
    {
        let target = match t {
            Target::Offset(_) => {
                return Ok(t);
            },
            Target::Label(id) => match last_symbol(&self.symbols, id) {
                Some(sv) => sv.val,
                None => {
                    return Ok(t);
                },
            },
            Target::TmpLabelF(n) => match self.tmp_f_tracker.get(self.line, n) {
                Some((a, _)) => a,
                None => {
                    self.tmp_f_tracker.need(self.line, n);
                    return Ok(t);
                },
            },
            Target::TmpLabelB(n) => match last_tmp(&self.tmp_symbols, n) {
                Some(sv) => sv.val,
                None => {
                    return Err(AsmError::TmpLabelUndefined(self.line));
                },
            },
        };
        match branch_offset_exec(target, self.loc) {
            Some(off) => Ok(Target::Offset(off)),
            None => Err(AsmError::BranchRange(self.line)),
        }
    }
}

impl Assembler {
    fn eval_ins(&mut self, ins: &Ins, Ghost(st): Ghost<AsmState>) -> (r: Result<Ins, AsmError>)
        requires
            old(self).models(st),
        ensures
            match s_eval_ins(st, *ins) {
                Ok((i1, st1)) => r == Ok::<Ins, AsmError>(i1) && final(self).models(st1),
                Err(e) => r == Err::<Ins, AsmError>(e),
            },
    {
        proof {
            reveal(s_eval_ins);
        }
        let line = self.line;
        if self.addr > 0xffff - 2 {
            return Err(AsmError::AddressOverflow(line));
        }
        self.addr = self.addr + 2;
        let ghost st1 = advance(st, 2)->Some_0;
        match ins {
            Ins::Branch(b) => {
                let target = self.eval_target(b.target, Ghost(st1))?;
                Ok(Ins::Branch(BranchIns { op: b.op, target }))
            },
            Ins::DoubleOperand(d) => {
                let ghost st2 = s_eval_operand(st1, d.src);
                let src = self.eval_operand(&d.src, Ghost(st1))?;
                let dst = self.eval_operand(&d.dst, Ghost(st2->Ok_0.1))?;
                Ok(Ins::DoubleOperand(crate::isa::DoubleOperandIns { op: d.op, src, dst }))
            },
            Ins::Jmp(j) => {
                let dst = self.eval_operand(&j.dst, Ghost(st1))?;
                Ok(Ins::Jmp(crate::isa::JmpIns { op: j.op, dst }))
            },
            Ins::Jsr(j) => {
                let dst = self.eval_operand(&j.dst, Ghost(st1))?;
                Ok(Ins::Jsr(crate::isa::JsrIns { op: j.op, reg: j.reg, dst }))
            },
            Ins::SingleOperand(x) => {
                let dst = self.eval_operand(&x.dst, Ghost(st1))?;
                Ok(Ins::SingleOperand(crate::isa::SingleOperandIns { op: x.op, dst }))
            },
            Ins::Eis(x) => {
                let operand = self.eval_operand(&x.operand, Ghost(st1))?;
                Ok(Ins::Eis(crate::isa::EisIns { op: x.op, reg: x.reg, operand }))
            },
            Ins::Trap(t) => {
                let r = self.eval_expr(&t.data, Ghost(st1));
                match r {
                    Ok(v) => if v.val < 256 {
                        Ok(Ins::Trap(TrapIns { op: t.op, data: Expr::Atom(Atom::Val(v.val)) }))
                    } else {
                        Err(AsmError::TrapData(line))
                    },
                    Err(_) => Ok(Ins::Trap(TrapIns { op: t.op, data: t.data.copy() })),
                }
            },
            Ins::Rts(x) => Ok(Ins::Rts(crate::isa::RtsIns { op: x.op, reg: x.reg })),
            Ins::CC(x) => Ok(Ins::CC(crate::isa::CCIns { op: x.op })),
            Ins::Misc(x) => Ok(Ins::Misc(crate::isa::MiscIns { op: x.op })),
        }
    }

    /// Evaluates the expressions of `.byte` (`width` 1) or `.word` (2).
    fn eval_data(&mut self, es: &Vec<Expr>, width: u16, Ghost(st): Ghost<AsmState>) -> (r: Result<
        Vec<Expr>,
        AsmError,
    >)
        requires
            old(self).models(st),
            width == 1 || width == 2,
        ensures
            match s_eval_data(st, es@, 0, width as int) {
                Ok((es1, st1)) => r matches Ok(v) && v@ == es1 && final(self).models(st1),
                Err(e) => r == Err::<Vec<Expr>, AsmError>(e),
            },
    {
        let line = self.line;
        let mut out: Vec<Expr> = Vec::new();
        let mut k: usize = 0;
        let ghost mut cur = st;
        proof {
            match s_eval_data(st, es@, 0, width as int) {
                Ok((q, _)) => {
                    assert(Seq::<Expr>::empty() + q =~= q);
                },
                Err(_) => {},
            }
        }
        while k < es.len()
            invariant
                k <= es@.len(),
                width == 1 || width == 2,
                self.models(cur),
                cur.line == st.line,
                line == st.line,
                match s_eval_data(st, es@, 0, width as int) {
                    Ok((all, st_end)) => match s_eval_data(cur, es@, k as int, width as int) {
                        Ok((rest, st_rest)) => all == out@ + rest && st_end == st_rest,
                        Err(_) => false,
                    },
                    Err(e) => s_eval_data(cur, es@, k as int, width as int) == Err::<
                        (Seq<Expr>, AsmState),
                        AsmError,
                    >(e),
                },
            decreases es@.len() - k,
        {
            let ghost before = cur;
            proof {
                lemma_eval_expr_frame(cur, es@[k as int]);
            }
            let r = self.eval_expr(&es[k], Ghost(cur));
            let e = match r {
                Ok(v) => Expr::Atom(Atom::Val(v.val)),
                Err(_) => es[k].copy(),
            };
            if self.addr > 0xffff - width || self.loc > 0xffff - width {
                return Err(AsmError::AddressOverflow(line));
            }
            self.addr = self.addr + width;
            self.loc = self.loc + width;
            proof {
                let st1 = s_eval_expr(before, es@[k as int]).1;
                cur = AsmState {
                    addr: (st1.addr + width) as u16,
                    loc: (st1.loc + width) as u16,
                    ..st1
                };
                match s_eval_data(cur, es@, k + 1, width as int) {
                    Ok((rest, _)) => {
                        assert(out@ + (seq![e] + rest) =~= out@.push(e) + rest);
                    },
                    Err(_) => {},
                }
            }
            out.push(e);
            k = k + 1;
        }
        proof {
            assert(out@ + Seq::<Expr>::empty() =~= out@);
        }
        Ok(out)
    }

    fn eval_cmd(&mut self, c: &Cmd, Ghost(st): Ghost<AsmState>) -> (r: Result<Cmd, AsmError>)
        requires
            old(self).models(st),
        ensures
            match s_eval_cmd(st, c.view()) {
                Ok((c1, st1)) => r matches Ok(x) && x.view() == c1 && final(self).models(st1),
                Err(e) => r matches Err(x) && x == e,
            },
    {
        proof {
            reveal(s_eval_cmd);
        }
        let line = self.line;
        match c {
            Cmd::SymbolDef(id, e) => {
                let r = self.eval_expr(e, Ghost(st));
                match r {
                    Ok(v) => {
                        match last_symbol(&self.symbols, *id) {
                            Some(prev) => {
                                if prev.typ == SymbolType::Label {
                                    return Err(AsmError::SymbolConflict(line));
                                }
                            },
                            None => {},
                        }
                        self.symbols.insert(
                            *id, SymbolValue { val: v.val, mode: v.mode, typ: SymbolType::Regular, line },
                        );
                        Ok(Cmd::SymbolDef(*id, e.copy()))
                    },
                    Err(_) => Ok(Cmd::SymbolDef(*id, e.copy())),
                }
            },
            Cmd::Ins(ins) => {
                let i1 = self.eval_ins(ins, Ghost(st))?;
                Ok(Cmd::Ins(i1))
            },
            Cmd::Bytes(es) => {
                let es1 = self.eval_data(es, 1, Ghost(st))?;
                Ok(Cmd::Bytes(es1))
            },
            Cmd::Words(es) => {
                let es1 = self.eval_data(es, 2, Ghost(st))?;
                Ok(Cmd::Words(es1))
            },
            Cmd::LocDef(e) => {
                let r = self.eval_expr(e, Ghost(st));
                match r {
                    Ok(v) => {
                        if v.val < self.addr {
                            return Err(AsmError::LocBackwards(line));
                        }
                        self.addr = v.val;
                        Ok(Cmd::LocDef(Expr::Atom(Atom::Val(v.val))))
                    },
                    Err(_) => Ok(Cmd::LocDef(e.copy())),
                }
            },
            Cmd::Even => {
                let pad = self.addr % 2;
                if self.addr > 0xffff - pad {
                    return Err(AsmError::AddressOverflow(line));
                }
                self.addr = self.addr + pad;
                Ok(Cmd::Even)
            },
            Cmd::Ascii(bytes) => {
                if bytes.len() > 0xffff || self.addr as usize > 0xffff - bytes.len() {
                    return Err(AsmError::AddressOverflow(line));
                }
                self.addr = self.addr + bytes.len() as u16;
                Ok(Cmd::Ascii(copy_vec(bytes)))
            },
        }
    }

    /// Evaluates the `k`-th statement (counted from 0).
    fn eval_stmt(&mut self, k: usize, s: &Stmt, Ghost(st): Ghost<AsmState>) -> (r: Result<Stmt, AsmError>)
        requires
            old(self).models(st),
            k < usize::MAX,
        ensures
            match s_eval_stmt(st, k as int, s.view()) {
                Ok((s1, st1)) => r matches Ok(x) && x.view() == s1 && final(self).models(st1),
                Err(e) => r matches Err(x) && x == e,
            },
    {
        proof {
            reveal(s_eval_stmt);
        }
        let line = k + 1;
        self.line = line;
        let here = SymbolValue { val: self.addr, mode: Mode::Text, typ: SymbolType::Label, line };
        match s.label_def {
            Label::Regular(id) => {
                match last_symbol(&self.symbols, id) {
                    Some(prev) => {
                        if prev.line != line {
                            return Err(AsmError::LabelConflict(line));
                        }
                    },
                    None => {},
                }
                self.symbols.insert(id, here);
            },
            Label::Tmp(n) => {
                self.tmp_symbols.insert(n, here);
                self.tmp_f_tracker.found(n, self.addr, Mode::Text);
            },
            Label::Absent => {},
        }
        self.loc = self.addr;
        let ghost st0 = AsmState { line, ..st };
        let ghost st1 = match s.label_def {
            Label::Regular(id) => AsmState { symbols: st0.symbols.insert(id, here), ..st0 },
            Label::Tmp(n) => AsmState {
                tmp: st0.tmp.insert(n, here),
                needs: st0.needs.filter(|p: (u16, usize)| p.0 != n),
                found: |l: usize, b: u16|
                    if b == n && st0.needs.contains((n, l)) {
                        Some((st0.addr, Mode::Text))
                    } else {
                        (st0.found)(l, b)
                    },
                ..st0
            },
            Label::Absent => st0,
        };
        let ghost st2 = AsmState { loc: st1.addr, ..st1 };
        assert(self.models(st2));
        match &s.cmd {
            None => Ok(Stmt { label_def: s.label_def, cmd: None }),
            Some(c) => {
                let c1 = self.eval_cmd(c, Ghost(st2))?;
                Ok(Stmt { label_def: s.label_def, cmd: Some(c1) })
            },
        }
    }

    /// One pass over the statements; see [`s_pass`].
    fn eval_pass(&mut self, ss: &Vec<Stmt>, Ghost(st): Ghost<AsmState>) -> (r: Result<Vec<Stmt>, AsmError>)
        requires
            old(self).models(st),
        ensures
            match s_pass(st, stmts_view(ss@)) {
                Ok((ss1, st1)) => r matches Ok(v) && stmts_view(v@) == ss1 && final(self).models(st1),
                Err(e) => r matches Err(x) && x == e,
            },
    {
        self.tmp_symbols = HashMap::new();
        self.addr = 0;
        let ghost start = AsmState { tmp: Map::empty(), addr: 0, ..st };
        let ghost sv = stmts_view(ss@);
        let ghost mut cur = start;
        let mut out: Vec<Stmt> = Vec::new();
        let mut k: usize = 0;
        proof {
            match s_eval_stmts(start, sv, 0) {
                Ok((q, _)) => {
                    assert(Seq::<StmtView>::empty() + q =~= q);
                },
                Err(_) => {},
            }
        }
        while k < ss.len()
            invariant
                k <= ss@.len(),
                start == (AsmState { tmp: Map::empty(), addr: 0, ..st }),
                sv == stmts_view(ss@),
                sv.len() == ss@.len(),
                self.models(cur),
                match s_eval_stmts(start, sv, 0) {
                    Ok((all, st_end)) => match s_eval_stmts(cur, sv, k as int) {
                        Ok((rest, st_rest)) => all == stmts_view(out@) + rest && st_end == st_rest,
                        Err(_) => false,
                    },
                    Err(e) => s_eval_stmts(cur, sv, k as int) == Err::<
                        (Seq<StmtView>, AsmState),
                        AsmError,
                    >(e),
                },
            decreases ss@.len() - k,
        {
            let ghost before = cur;
            assert(sv[k as int] == ss@[k as int].view());
            let res = self.eval_stmt(k, &ss[k], Ghost(cur));
            let s1 = match res {
                Ok(x) => x,
                Err(e) => {
                    proof {
                        assert(s_eval_stmts(before, sv, k as int) == Err::<
                            (Seq<StmtView>, AsmState),
                            AsmError,
                        >(e));
                        assert(s_eval_stmts(start, sv, 0) == Err::<
                            (Seq<StmtView>, AsmState),
                            AsmError,
                        >(e));
                    }
                    return Err(e);
                },
            };
            proof {
                cur = s_eval_stmt(before, k as int, sv[k as int])->Ok_0.1;
                match s_eval_stmts(cur, sv, k + 1) {
                    Ok((rest, _)) => {
                        assert(stmts_view(out@.push(s1)) =~= stmts_view(out@).push(s1.view()));
                        assert(stmts_view(out@) + (seq![s1.view()] + rest) =~= stmts_view(out@).push(s1.view()) + rest);
                    },
                    Err(_) => {},
                }
            }
            out.push(s1);
            k = k + 1;
        }
        proof {
            assert(stmts_view(out@) + Seq::<StmtView>::empty() =~= stmts_view(out@));
        }
        Ok(out)
    }
}

/// A copy of a byte vector.
fn copy_vec(v: &Vec<u8>) -> (r: Vec<u8>)
    ensures
        r@ == v@,
{
    let mut out: Vec<u8> = Vec::new();
    let mut k: usize = 0;
    while k < v.len()
        invariant
            k <= v@.len(),
            out@ == v@.take(k as int),
        decreases v@.len() - k,
    {
        out.push(v[k]);
        k = k + 1;
        assert(out@ =~= v@.take(k as int));
    }
    assert(v@.take(k as int) =~= v@);
    out
}

/// The first statement, from `k` on, with an unresolved expression.
pub open spec fn s_check(ss: Seq<StmtView>, k: int) -> Result<(), AsmError>
    decreases ss.len() - k,
{
    if k < 0 || k >= ss.len() {
        Ok(())
    } else if ss[k].cmd matches Some(c) && !c.resolved() {
        Err(AsmError::Unresolved((k + 1) as usize))
    } else {
        s_check(ss, k + 1)
    }
}

/// Why a resolved command cannot be emitted.
pub open spec fn emit_error(c: CmdView, line: usize) -> AsmError {
    match c {
        CmdView::Bytes(_) => AsmError::ByteRange(line),
        CmdView::LocDef(_) => AsmError::LocBackwards(line),
        _ => AsmError::OddDivisionRegister(line),
    }
}

/// The bytes of the statements from `k` on appended to `buf`.
pub open spec fn s_emit(ss: Seq<StmtView>, k: int, buf: Seq<u8>) -> Result<Seq<u8>, AsmError>
    decreases ss.len() - k,
{
    if k < 0 || k >= ss.len() {
        Ok(buf)
    } else {
        match ss[k].cmd {
            None => s_emit(ss, k + 1, buf),
            Some(c) => if c.emittable_at(buf.len() as int) {
                s_emit(ss, k + 1, buf + c.emitted(buf.len() as int))
            } else {
                Err(emit_error(c, (k + 1) as usize))
            },
        }
    }
}

/// The statements of a program assembled: resolved in two passes, checked,
/// and emitted; the bytes and the definitions of the symbols.
pub open spec fn s_assemble(ss: Seq<StmtView>, rel_after: bool) -> Result<(Seq<u8>, Map<usize, SymbolValue>), AsmError> {
    match s_resolve(ss, rel_after) {
        Err(e) => Err(e),
        Ok((ss1, st)) => match s_check(ss1, 0) {
            Err(e) => Err(e),
            Ok(_) => match s_emit(ss1, 0, Seq::empty()) {
                Err(e) => Err(e),
                Ok(text) => Ok((text, st.symbols)),
            },
        },
    }
}

/// The symbol table of a program: each defined symbol number once, in
/// order, with its name and last value.
pub open spec fn symbol_table(names: Seq<Seq<u8>>, defs: Map<usize, SymbolValue>, k: int) -> Seq<
    (Seq<u8>, SymbolValue),
>
    decreases names.len() - k,
{
    if k < 0 || k >= names.len() {
        Seq::empty()
    } else {
        let rest = symbol_table(names, defs, k + 1);
        match lookup(defs, k as usize) {
            Some(v) => seq![(names[k], v)] + rest,
            None => rest,
        }
    }
}

/// An assembled program: its bytes and its symbols by name.
#[derive(Debug)]
pub struct Program {
    pub text: Vec<u8>,
    pub symbols: Vec<(Vec<u8>, SymbolValue)>,
}

/// The symbol table with names as sequences.
pub open spec fn table_view(t: Seq<(Vec<u8>, SymbolValue)>) -> Seq<(Seq<u8>, SymbolValue)> {
    t.map_values(|e: (Vec<u8>, SymbolValue)| (e.0@, e.1))
}

/// The value of the first entry named `name` in a symbol table.
pub open spec fn table_lookup(t: Seq<(Seq<u8>, SymbolValue)>, name: Seq<u8>) -> Option<SymbolValue>
    decreases t.len(),
{
    if t.len() == 0 {
        None
    } else if t[0].0 == name {
        Some(t[0].1)
    } else {
        table_lookup(t.drop_first(), name)
    }
}

/// The name of the entry point, `_start`.
pub open spec fn start_name() -> Seq<u8> {
    seq![95u8, 115u8, 116u8, 97u8, 114u8, 116u8]
}

impl Program {
    /// The value of the symbol whose name has the bytes `name`.
    pub fn symbol_bytes(&self, name: &[u8]) -> (r: Option<SymbolValue>)
        ensures
            r == table_lookup(table_view(self.symbols@), name@),
    {
        let ghost tv = table_view(self.symbols@);
        let mut k: usize = 0;
        proof {
            assert(tv.skip(0) =~= tv);
        }
        while k < self.symbols.len()
            invariant
                k <= self.symbols@.len(),
                tv == table_view(self.symbols@),
                tv.len() == self.symbols@.len(),
                table_lookup(tv, name@) == table_lookup(tv.skip(k as int), name@),
            decreases self.symbols@.len() - k,
        {
            proof {
                assert(tv.skip(k as int)[0] == tv[k as int]);
                assert(tv.skip(k as int).drop_first() =~= tv.skip(k + 1));
            }
            if same_bytes(&self.symbols[k].0, name) {
                return Some(self.symbols[k].1);
            }
            k = k + 1;
        }
        proof {
            assert(tv.skip(k as int) =~= Seq::<(Seq<u8>, SymbolValue)>::empty());
        }
        None
    }

    /// The value of the symbol named `name`, if the program defines it.
    pub fn symbol(&self, name: &str) -> (r: Option<SymbolValue>)
        ensures
            r == table_lookup(table_view(self.symbols@), name.spec_bytes()),
    {
        self.symbol_bytes(name.as_bytes())
    }
}

/// Whether `x` holds the bytes of `y`.
fn same_bytes(x: &Vec<u8>, y: &[u8]) -> (r: bool)
    ensures
        r == (x@ == y@),
{
    if x.len() != y.len() {
        return false;
    }
    let mut k: usize = 0;
    while k < x.len()
        invariant
            x@.len() == y@.len(),
            k <= x@.len(),
            forall|j: int| 0 <= j < k ==> x@[j] == y@[j],
        decreases x@.len() - k,
    {
        if x[k] != y[k] {
            return false;
        }
        k = k + 1;
    }
    assert(x@ =~= y@);
    true
}

/// Checks that every statement is resolved; see [`s_check`].
fn check_all(ss: &Vec<Stmt>) -> (r: Result<(), AsmError>)
    ensures
        r == s_check(stmts_view(ss@), 0),
{
    let ghost sv = stmts_view(ss@);
    let mut k: usize = 0;
    while k < ss.len()
        invariant
            k <= ss@.len(),
            sv == stmts_view(ss@),
            s_check(sv, 0) == s_check(sv, k as int),
        decreases ss@.len() - k,
    {
        assert(sv[k as int] == ss@[k as int].view());
        if ss[k].check_resolved().is_err() {
            return Err(AsmError::Unresolved(k + 1));
        }
        k = k + 1;
    }
    Ok(())
}

/// Emits the checked statements; see [`s_emit`].
fn emit_all(ss: &Vec<Stmt>) -> (r: Result<Vec<u8>, AsmError>)
    requires
        s_check(stmts_view(ss@), 0) is Ok,
    ensures
        match s_emit(stmts_view(ss@), 0, Seq::empty()) {
            Ok(text) => r matches Ok(b) && b@ == text,
            Err(e) => r == Err::<Vec<u8>, AsmError>(e),
        },
{
    let ghost sv = stmts_view(ss@);
    let mut buf: Vec<u8> = Vec::new();
    let mut k: usize = 0;
    while k < ss.len()
        invariant
            k <= ss@.len(),
            sv == stmts_view(ss@),
            s_check(sv, 0) == s_check(sv, k as int),
            s_check(sv, k as int) is Ok,
            s_emit(sv, 0, Seq::empty()) == s_emit(sv, k as int, buf@),
        decreases ss@.len() - k,
    {
        assert(sv[k as int] == ss@[k as int].view());
        let st = &ss[k];
        if !st.check_emittable(buf.len()) {
            proof {
                if st.cmd is Some {
                    let c = st.cmd->Some_0;
                    assert(s_emit(sv, k as int, buf@) == Err::<Seq<u8>, AsmError>(
                        emit_error(c.view(), (k + 1) as usize),
                    ));
                }
            }
            let e = match &st.cmd {
                Some(Cmd::Bytes(_)) => AsmError::ByteRange(k + 1),
                Some(Cmd::LocDef(_)) => AsmError::LocBackwards(k + 1),
                _ => AsmError::OddDivisionRegister(k + 1),
            };
            return Err(e);
        }
        st.emit(&mut buf);
        k = k + 1;
    }
    Ok(buf)
}

/// The symbol table of the program; see [`symbol_table`].
fn build_table(names: &Vec<Vec<u8>>, defs: &HashMap<usize, SymbolValue>) -> (r: Vec<(Vec<u8>, SymbolValue)>)
    ensures
        table_view(r@) == symbol_table(names_view(names@), defs@, 0),
{
    let ghost nv = names_view(names@);
    let mut out: Vec<(Vec<u8>, SymbolValue)> = Vec::new();
    let mut k: usize = 0;
    proof {
        assert(Seq::<(Seq<u8>, SymbolValue)>::empty() + symbol_table(nv, defs@, 0) =~= symbol_table(
            nv,
            defs@,
            0,
        ));
    }
    while k < names.len()
        invariant
            k <= names@.len(),
            nv == names_view(names@),
            nv.len() == names@.len(),
            symbol_table(nv, defs@, 0) == table_view(out@) + symbol_table(nv, defs@, k as int),
        decreases names@.len() - k,
    {
        match last_symbol(defs, k) {
            Some(v) => {
                let name = copy_vec(&names[k]);
                proof {
                    let rest = symbol_table(nv, defs@, k + 1);
                    assert(table_view(out@.push((name, v))) =~= table_view(out@).push((nv[k as int], v)));
                    assert(table_view(out@) + (seq![(nv[k as int], v)] + rest) =~= table_view(out@).push(
                        (nv[k as int], v),
                    ) + rest);
                }
                out.push((name, v));
            },
            None => {},
        }
        k = k + 1;
    }
    proof {
        assert(table_view(out@) + Seq::<(Seq<u8>, SymbolValue)>::empty() =~= table_view(out@));
    }
    out
}

/// What assembling `src` gives: a syntax error at the first line that has
/// none of the program's tokens or statements; otherwise, for the program's
/// tokens with symbol numbers for its names, the outcome of [`s_assemble`]
/// on its statements, the symbols given by name.
pub open spec fn assembles_to(src: Seq<u8>, rel_after: bool, r: Result<Program, AsmError>) -> bool {
    &&& lex_from(src, 0) matches Err(p) ==> r == Err::<Program, AsmError>(
        AsmError::Syntax(crate::assembler::front::line_of(src, p as int) as usize),
    )
    &&& lex_from(src, 0) is Ok ==> exists|t: Seq<Token>, names: Seq<Seq<u8>>|
        #[trigger] interned(src, lex_from(src, 0)->Ok_0, t, names) && match s_parse(src, t) {
            Err(e) => r == Err::<Program, AsmError>(e),
            Ok(ss) => match s_assemble(ss, rel_after) {
                Err(e) => r == Err::<Program, AsmError>(e),
                Ok((text, defs)) => r matches Ok(p) && p.text@ == text && table_view(p.symbols@)
                    == symbol_table(names, defs, 0),
            },
        }
}

/// Assembles source text into bytes to be loaded at address 0, with the
/// program's symbols. A syntax error names the first line that is no
/// statement (or where no token can start); the other errors name the
/// statement, counted from 1 over the non-empty lines. A relative operand
/// is stored as the offset from the address after its extra word. The
/// source must assemble: on a program with an error the call panics (see
/// [`assemble_with`] for the error instead).
pub fn assemble_raw(prog: &str) -> (r: Program)
    requires
        assembles(prog.spec_bytes(), true),
    ensures
        assembles_to(prog.spec_bytes(), true, Ok::<Program, AsmError>(r)),
{
    match assemble_with(prog, true) {
        Ok(p) => p,
        Err(_) => vstd::pervasive::unreached(),
    }
}

/// Whether `src` assembles: no outcome of assembling it is an error.
pub open spec fn assembles(src: Seq<u8>, rel_after: bool) -> bool {
    forall|r: Result<Program, AsmError>| #[trigger] assembles_to(src, rel_after, r) ==> r is Ok
}

/// What assembling `src` into an `a.out` program gives: the error of
/// assembling it, `NoStart` where it defines no `_start`, or its bytes as
/// the text with `_start` as the entry point.
pub open spec fn aout_of(src: Seq<u8>, r: Result<crate::aout::Aout, AsmError>) -> bool {
    exists|raw: Result<Program, AsmError>|
        #[trigger] assembles_to(src, true, raw) && match raw {
            Err(e) => r == Err::<crate::aout::Aout, AsmError>(e),
            Ok(p) => match table_lookup(table_view(p.symbols@), start_name()) {
                None => r == Err::<crate::aout::Aout, AsmError>(AsmError::NoStart),
                Some(v) => r matches Ok(a) && a.text@ == p.text@ && a.entry_point == v.val
                    && a.data@.len() == 0 && a.bss@.len() == 0 && a.symbol_table@.len() == 0,
            },
        }
}

/// Whether `src` assembles into an `a.out` program: it assembles and
/// defines `_start`.
pub open spec fn gives_aout(src: Seq<u8>) -> bool {
    forall|r: Result<crate::aout::Aout, AsmError>| #[trigger] aout_of(src, r) ==> r is Ok
}

/// Assembles source text as [`assemble_raw`] does, with a relative operand
/// stored as the offset from the address after its extra word where
/// `rel_after` holds, and from the address of that word otherwise (where
/// the processor reads the PC before it moves past the word).
pub fn assemble_with(prog: &str, rel_after: bool) -> (r: Result<Program, AsmError>)
    ensures
        assembles_to(prog.spec_bytes(), rel_after, r),
{
    let s = prog.as_bytes();
    let (ss, names) = match parse_program(s) {
        Ok(x) => x,
        Err(e) => {
            return Err(e);
        },
    };
    let ghost sv = stmts_view(ss@);
    let mut pass = Assembler::new(rel_after);
    let ss1 = pass.eval_pass(&ss, Ghost(initial_state(rel_after)))?;
    let ghost st1 = s_pass(initial_state(rel_after), sv)->Ok_0.1;
    let ss2 = pass.eval_pass(&ss1, Ghost(st1))?;
    check_all(&ss2)?;
    let text = emit_all(&ss2)?;
    let symbols = build_table(&names, &pass.symbols);
    Ok(Program { text, symbols })
}

/// Assembles source text into an `a.out` program whose entry point is the
/// symbol `_start`. The source must assemble and define `_start`: otherwise
/// the call panics (see [`try_assemble`] for the error instead).
pub fn assemble(prog: &str) -> (r: crate::aout::Aout)
    requires
        gives_aout(prog.spec_bytes()),
    ensures
        aout_of(prog.spec_bytes(), Ok::<crate::aout::Aout, AsmError>(r)),
{
    match try_assemble(prog) {
        Ok(a) => a,
        Err(_) => vstd::pervasive::unreached(),
    }
}

/// Assembles source text into an `a.out` program whose entry point is the
/// symbol `_start`, or gives the error.
pub fn try_assemble(prog: &str) -> (r: Result<crate::aout::Aout, AsmError>)
    ensures
        aout_of(prog.spec_bytes(), r),
{
    let raw = assemble_with(prog, true);
    let p = match raw {
        Ok(p) => p,
        Err(e) => {
            proof {
                assert(assembles_to(prog.spec_bytes(), true, Err::<Program, AsmError>(e)));
            }
            return Err(e);
        },
    };
    let ghost praw: Result<Program, AsmError> = Ok(p);
    proof {
        assert(assembles_to(prog.spec_bytes(), true, praw));
    }
    let name: [u8; 6] = [95, 115, 116, 97, 114, 116];
    proof {
        assert(name@ == start_name());
    }
    match p.symbol_bytes(name.as_slice()) {
        None => Err(AsmError::NoStart),
        Some(v) => {
            let mut a = crate::aout::Aout::empty();
            a.text = p.text;
            a.entry_point = v.val;
            Ok(a)
        },
    }
}

} // verus!

