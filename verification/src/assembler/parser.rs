//! The grammar of one line of assembler source, over its tokens.
use vstd::prelude::*;
use crate::assembler::ir::{Cmd, CmdView, Label, Stmt, StmtView};
use crate::assembler::lexer::{Mnemonic, Token};
use crate::isa::{
    AddrMode, Atom, BranchIns, CCIns, DoubleOperandIns, EisIns, Expr, Extra, Ins, JmpIns, JsrIns,
    MiscIns, Op, Operand, Reg, RtsIns, SingleOperandIns, Target, TrapIns,
};

verus! {

/// An atom: a number (possibly negated), a character, `.`, a symbol or a
/// temporary label reference; and the position after it.
pub open spec fn p_atom(t: Seq<Token>, i: int) -> Option<(Atom, int)> {
    if 0 <= i < t.len() {
        match t[i] {
            Token::Num(v) => Some((Atom::Val(v), i + 1)),
            Token::Minus => if i + 1 < t.len() && t[i + 1] is Num {
                Some((Atom::Val(((65536 - t[i + 1]->Num_0) % 65536) as u16), i + 2))
            } else {
                None
            },
            Token::Char(c) => Some((Atom::Val(c as u16), i + 1)),
            Token::Dot => Some((Atom::Loc, i + 1)),
            Token::Ident(id) => Some((Atom::SymbolRef(id), i + 1)),
            Token::TmpRef(n, fwd) => Some(
                (
                    if fwd {
                        Atom::TmpSymbolFRef(n)
                    } else {
                        Atom::TmpSymbolBRef(n)
                    },
                    i + 1,
                ),
            ),
            _ => None,
        }
    } else {
        None
    }
}

/// The binary operator a token stands for: `+`, `-`, `&` and `!` (or).
pub open spec fn binop(t: Token) -> Option<Op> {
    match t {
        Token::Plus => Some(Op::Add),
        Token::Minus => Some(Op::Sub),
        Token::Amp => Some(Op::And),
        Token::Bang => Some(Op::Or),
        _ => None,
    }
}

/// The rest of an expression after `lhs`: operators and atoms, grouped from
/// the left, as long as an operator is followed by an atom.
pub open spec fn p_expr_rest(t: Seq<Token>, i: int, lhs: Expr) -> (Expr, int)
    decreases t.len() - i,
{
    if 0 <= i < t.len() && binop(t[i]) is Some {
        match p_atom(t, i + 1) {
            Some((a, j)) => if i < j <= t.len() {
                p_expr_rest(t, j, Expr::Op(Box::new(lhs), binop(t[i])->Some_0, a))
            } else {
                (lhs, i)
            },
            None => (lhs, i),
        }
    } else {
        (lhs, i)
    }
}

/// An expression: an atom and the operations that follow it.
pub open spec fn p_expr(t: Seq<Token>, i: int) -> Option<(Expr, int)> {
    match p_atom(t, i) {
        Some((a, j)) => Some(p_expr_rest(t, j, Expr::Atom(a))),
        None => None,
    }
}

/// A register in parentheses.
pub open spec fn p_paren_reg(t: Seq<Token>, i: int) -> Option<(Reg, int)> {
    if 0 <= i && i + 2 < t.len() && t[i] == Token::LParen && t[i + 1] is Register && t[i + 2]
        == Token::RParen {
        Some((t[i + 1]->Register_0, i + 3))
    } else {
        None
    }
}

/// An operand naming an address by an expression: `e(r)` indexed, or `e`
/// relative to the PC; deferred after `@`.
pub open spec fn p_indexed(t: Seq<Token>, i: int, deferred: bool) -> Option<(Operand, int)> {
    let mode = if deferred {
        AddrMode::IndexDef
    } else {
        AddrMode::Index
    };
    match p_expr(t, i) {
        Some((e, j)) => match p_paren_reg(t, j) {
            Some((r, k)) => Some((Operand { mode, reg: r, extra: Extra::Imm(e) }, k)),
            None => Some((Operand { mode, reg: Reg::PC, extra: Extra::Rel(e) }, j)),
        },
        None => None,
    }
}

/// A deferred operand, after `@`: `@r`, `@(r)+`, `@-(r)`, `@#e`, `@e(r)`
/// and `@e`.
pub open spec fn p_deferred(t: Seq<Token>, i: int) -> Option<(Operand, int)> {
    if 0 <= i < t.len() {
        match t[i] {
            Token::Register(r) => Some((Operand { mode: AddrMode::Def, reg: r, extra: Extra::Absent }, i + 1)),
            Token::LParen => match p_paren_reg(t, i) {
                Some((r, j)) => if j < t.len() && t[j] == Token::Plus {
                    Some((Operand { mode: AddrMode::AutoIncDef, reg: r, extra: Extra::Absent }, j + 1))
                } else {
                    None
                },
                None => None,
            },
            Token::Minus => if i + 1 < t.len() && t[i + 1] == Token::LParen {
                match p_paren_reg(t, i + 1) {
                    Some((r, j)) => Some(
                        (Operand { mode: AddrMode::AutoDecDef, reg: r, extra: Extra::Absent }, j),
                    ),
                    None => None,
                }
            } else {
                p_indexed(t, i, true)
            },
            Token::Hash => match p_expr(t, i + 1) {
                Some((e, j)) => Some(
                    (Operand { mode: AddrMode::AutoIncDef, reg: Reg::PC, extra: Extra::Imm(e) }, j),
                ),
                None => None,
            },
            _ => p_indexed(t, i, true),
        }
    } else {
        None
    }
}

/// An operand: `r`, `(r)`, `(r)+`, `-(r)`, `#e`, `e(r)`, `e`, or a deferred
/// one after `@`.
pub open spec fn p_operand(t: Seq<Token>, i: int) -> Option<(Operand, int)> {
    if 0 <= i < t.len() {
        match t[i] {
            Token::Register(r) => Some((Operand { mode: AddrMode::Gen, reg: r, extra: Extra::Absent }, i + 1)),
            Token::LParen => match p_paren_reg(t, i) {
                Some((r, j)) => if j < t.len() && t[j] == Token::Plus {
                    Some((Operand { mode: AddrMode::AutoInc, reg: r, extra: Extra::Absent }, j + 1))
                } else {
                    Some((Operand { mode: AddrMode::Def, reg: r, extra: Extra::Absent }, j))
                },
                None => None,
            },
            Token::Minus => if i + 1 < t.len() && t[i + 1] == Token::LParen {
                match p_paren_reg(t, i + 1) {
                    Some((r, j)) => Some(
                        (Operand { mode: AddrMode::AutoDec, reg: r, extra: Extra::Absent }, j),
                    ),
                    None => None,
                }
            } else {
                p_indexed(t, i, false)
            },
            Token::Hash => match p_expr(t, i + 1) {
                Some((e, j)) => Some(
                    (Operand { mode: AddrMode::AutoInc, reg: Reg::PC, extra: Extra::Imm(e) }, j),
                ),
                None => None,
            },
            Token::At => p_deferred(t, i + 1),
            _ => p_indexed(t, i, false),
        }
    } else {
        None
    }
}

/// A register token.
pub open spec fn p_reg(t: Seq<Token>, i: int) -> Option<Reg> {
    if 0 <= i < t.len() && t[i] is Register {
        Some(t[i]->Register_0)
    } else {
        None
    }
}

/// Whether the token at `i` is `tok`.
pub open spec fn at(t: Seq<Token>, i: int, tok: Token) -> bool {
    0 <= i < t.len() && t[i] == tok
}

/// The target of a branch: a label or a temporary label reference.
pub open spec fn p_target(t: Seq<Token>, i: int) -> Option<(Target, int)> {
    if 0 <= i < t.len() {
        match t[i] {
            Token::Ident(id) => Some((Target::Label(id), i + 1)),
            Token::TmpRef(n, fwd) => Some(
                (
                    if fwd {
                        Target::TmpLabelF(n)
                    } else {
                        Target::TmpLabelB(n)
                    },
                    i + 1,
                ),
            ),
            _ => None,
        }
    } else {
        None
    }
}

/// The operands of an instruction with mnemonic `m`, from `i` on.
pub open spec fn p_ins(t: Seq<Token>, i: int, m: Mnemonic) -> Option<(Ins, int)> {
    match m {
        Mnemonic::Double(op) => match p_operand(t, i) {
            Some((src, j)) => if at(t, j, Token::Comma) {
                match p_operand(t, j + 1) {
                    Some((dst, k)) => Some((Ins::DoubleOperand(DoubleOperandIns { op, src, dst }), k)),
                    None => None,
                }
            } else {
                None
            },
            None => None,
        },
        Mnemonic::Branch(op) => match p_target(t, i) {
            Some((target, j)) => Some((Ins::Branch(BranchIns { op, target }), j)),
            None => None,
        },
        Mnemonic::Jmp(op) => match p_operand(t, i) {
            Some((dst, j)) => Some((Ins::Jmp(JmpIns { op, dst }), j)),
            None => None,
        },
        Mnemonic::Jsr(op) => match p_reg(t, i) {
            Some(reg) => if at(t, i + 1, Token::Comma) {
                match p_operand(t, i + 2) {
                    Some((dst, j)) => Some((Ins::Jsr(JsrIns { op, reg, dst }), j)),
                    None => None,
                }
            } else {
                None
            },
            None => None,
        },
        Mnemonic::Rts(op) => match p_reg(t, i) {
            Some(reg) => Some((Ins::Rts(RtsIns { op, reg }), i + 1)),
            None => None,
        },
        Mnemonic::Single(op) => match p_operand(t, i) {
            Some((dst, j)) => Some((Ins::SingleOperand(SingleOperandIns { op, dst }), j)),
            None => None,
        },
        Mnemonic::Eis(op) => match p_operand(t, i) {
            Some((operand, j)) => if at(t, j, Token::Comma) {
                match p_reg(t, j + 1) {
                    Some(reg) => Some((Ins::Eis(EisIns { op, reg, operand }), j + 2)),
                    None => None,
                }
            } else {
                None
            },
            None => None,
        },
        Mnemonic::CC(op) => Some((Ins::CC(CCIns { op }), i)),
        Mnemonic::Misc(op) => Some((Ins::Misc(MiscIns { op }), i)),
        Mnemonic::Trap(op) => match p_expr(t, i) {
            Some((data, j)) => Some((Ins::Trap(TrapIns { op, data }), j)),
            None => Some((Ins::Trap(TrapIns { op, data: Expr::Atom(Atom::Val(0)) }), i)),
        },
    }
}

/// A list of expressions, separated by commas or by nothing.
pub open spec fn p_exprs(t: Seq<Token>, i: int) -> (Seq<Expr>, int)
    decreases t.len() - i,
{
    match p_expr(t, i) {
        Some((e, j)) => {
            let k = if at(t, j, Token::Comma) {
                j + 1
            } else {
                j
            };
            if i < k <= t.len() {
                let (rest, m) = p_exprs(t, k);
                (seq![e] + rest, m)
            } else {
                (seq![e], k)
            }
        },
        None => (Seq::empty(), i),
    }
}

/// The command of a line from `i` on (none where the line ends there):
/// `name = e`, `. = e`, `.word`, `.byte`, `.even`, `.ascii`, `.asciz` (a
/// zero byte added) or an instruction. The contents of strings come from
/// the source `s`.
pub open spec fn p_cmd(s: Seq<u8>, t: Seq<Token>, i: int) -> Option<(Option<CmdView>, int)> {
    if i >= t.len() {
        Some((None, i))
    } else {
        match t[i] {
            Token::Ident(id) => if at(t, i + 1, Token::Eq) {
                match p_expr(t, i + 2) {
                    Some((e, j)) => Some((Some(CmdView::SymbolDef(id, e)), j)),
                    None => None,
                }
            } else {
                None
            },
            Token::Dot => if at(t, i + 1, Token::Eq) {
                match p_expr(t, i + 2) {
                    Some((e, j)) => Some((Some(CmdView::LocDef(e)), j)),
                    None => None,
                }
            } else {
                None
            },
            Token::Word => {
                let (es, j) = p_exprs(t, i + 1);
                Some((Some(CmdView::Words(es)), j))
            },
            Token::Byte => {
                let (es, j) = p_exprs(t, i + 1);
                Some((Some(CmdView::Bytes(es)), j))
            },
            Token::Even => Some((Some(CmdView::Even), i + 1)),
            Token::Ascii | Token::Asciz => if i + 1 < t.len() && t[i + 1] is Str && t[i + 1]->Str_0
                <= t[i + 1]->Str_1 <= s.len() {
                let a = t[i + 1]->Str_0 as int;
                let b = t[i + 1]->Str_1 as int;
                let body = s.subrange(a, b);
                Some(
                    (
                        Some(
                            CmdView::Ascii(
                                if t[i] == Token::Asciz {
                                    body.push(0)
                                } else {
                                    body
                                },
                            ),
                        ),
                        i + 2,
                    ),
                )
            } else {
                None
            },
            Token::Mnemonic(m) => match p_ins(t, i + 1, m) {
                Some((ins, j)) => Some((Some(CmdView::Ins(ins)), j)),
                None => None,
            },
            _ => None,
        }
    }
}

/// The label of a line: `name:` or `N:`, and the position after it.
pub open spec fn p_label(t: Seq<Token>) -> (Label, int) {
    if t.len() >= 2 && t[0] is Ident && t[1] == Token::Colon {
        (Label::Regular(t[0]->Ident_0), 2)
    } else if t.len() >= 1 && t[0] is TmpLabel {
        (Label::Tmp(t[0]->TmpLabel_0), 1)
    } else {
        (Label::Absent, 0)
    }
}

/// A whole line: a label, then a command, and nothing after.
#[verifier::opaque]
pub open spec fn p_line(s: Seq<u8>, t: Seq<Token>) -> Option<StmtView> {
    let (label_def, i) = p_label(t);
    match p_cmd(s, t, i) {
        Some((cmd, j)) => if j == t.len() {
            Some(StmtView { label_def, cmd })
        } else {
            None
        },
        None => None,
    }
}

fn parse_atom(t: &Vec<Token>, i: usize) -> (r: Option<(Atom, usize)>)
    ensures
        p_atom(t@, i as int) == (match r {
            Some((a, j)) => Some((a, j as int)),
            None => None,
        }),
        r matches Some((_, j)) ==> i < j <= t@.len(),
{
    if i >= t.len() {
        return None;
    }
    match t[i] {
        Token::Num(v) => Some((Atom::Val(v), i + 1)),
        Token::Minus => {
            if i + 1 < t.len() {
                if let Token::Num(v) = t[i + 1] {
                    let n: u16 = if v == 0 { 0 } else { (65536 - v as u32) as u16 };
                    return Some((Atom::Val(n), i + 2));
                }
            }
            None
        },
        Token::Char(c) => Some((Atom::Val(c as u16), i + 1)),
        Token::Dot => Some((Atom::Loc, i + 1)),
        Token::Ident(id) => Some((Atom::SymbolRef(id), i + 1)),
        Token::TmpRef(n, fwd) => Some(
            (
                if fwd {
                    Atom::TmpSymbolFRef(n)
                } else {
                    Atom::TmpSymbolBRef(n)
                },
                i + 1,
            ),
        ),
        _ => None,
    }
}

fn binop_of(t: Token) -> (r: Option<Op>)
    ensures
        r == binop(t),
{
    match t {
        Token::Plus => Some(Op::Add),
        Token::Minus => Some(Op::Sub),
        Token::Amp => Some(Op::And),
        Token::Bang => Some(Op::Or),
        _ => None,
    }
}

/// Parses an expression; see [`p_expr`].
pub fn parse_expr(t: &Vec<Token>, i: usize) -> (r: Option<(Expr, usize)>)
    ensures
        p_expr(t@, i as int) == (match r {
            Some((e, j)) => Some((e, j as int)),
            None => None,
        }),
        r matches Some((_, j)) ==> i < j <= t@.len(),
{
    let (a, j) = match parse_atom(t, i) {
        Some(x) => x,
        None => {
            return None;
        },
    };
    let mut e = Expr::Atom(a);
    let mut k = j;
    loop
        invariant
            i < j <= k <= t@.len(),
            p_expr_rest(t@, j as int, Expr::Atom(a)) == p_expr_rest(t@, k as int, e),
        ensures
            i < k <= t@.len(),
            p_expr_rest(t@, j as int, Expr::Atom(a)) == (e, k as int),
        decreases t@.len() - k,
    {
        if k < t.len() {
            if let Some(op) = binop_of(t[k]) {
                if let Some((b, m)) = parse_atom(t, k + 1) {
                    e = Expr::Op(Box::new(e), op, b);
                    k = m;
                    continue;
                }
            }
        }
        break;
    }
    Some((e, k))
}

fn parse_paren_reg(t: &Vec<Token>, i: usize) -> (r: Option<(Reg, usize)>)
    ensures
        p_paren_reg(t@, i as int) == (match r {
            Some((reg, j)) => Some((reg, j as int)),
            None => None,
        }),
        r matches Some((_, j)) ==> i < j <= t@.len(),
{
    if i < t.len() && t.len() - i > 2 {
        if let (Token::LParen, Token::Register(r), Token::RParen) = (t[i], t[i + 1], t[i + 2]) {
            return Some((r, i + 3));
        }
    }
    None
}

fn parse_indexed(t: &Vec<Token>, i: usize, deferred: bool) -> (r: Option<(Operand, usize)>)
    ensures
        p_indexed(t@, i as int, deferred) == (match r {
            Some((o, j)) => Some((o, j as int)),
            None => None,
        }),
        r matches Some((_, j)) ==> i < j <= t@.len(),
{
    let mode = if deferred {
        AddrMode::IndexDef
    } else {
        AddrMode::Index
    };
    match parse_expr(t, i) {
        Some((e, j)) => match parse_paren_reg(t, j) {
            Some((r, k)) => Some((Operand { mode, reg: r, extra: Extra::Imm(e) }, k)),
            None => Some((Operand { mode, reg: Reg::PC, extra: Extra::Rel(e) }, j)),
        },
        None => None,
    }
}

fn parse_deferred(t: &Vec<Token>, i: usize) -> (r: Option<(Operand, usize)>)
    ensures
        p_deferred(t@, i as int) == (match r {
            Some((o, j)) => Some((o, j as int)),
            None => None,
        }),
        r matches Some((_, j)) ==> i < j <= t@.len(),
{
    if i >= t.len() {
        return None;
    }
    match t[i] {
        Token::Register(r) => Some((Operand { mode: AddrMode::Def, reg: r, extra: Extra::Absent }, i + 1)),
        Token::LParen => match parse_paren_reg(t, i) {
            Some((r, j)) => if j < t.len() && t[j] == Token::Plus {
                Some((Operand { mode: AddrMode::AutoIncDef, reg: r, extra: Extra::Absent }, j + 1))
            } else {
                None
            },
            None => None,
        },
        Token::Minus => if i + 1 < t.len() && t[i + 1] == Token::LParen {
            match parse_paren_reg(t, i + 1) {
                Some((r, j)) => Some(
                    (Operand { mode: AddrMode::AutoDecDef, reg: r, extra: Extra::Absent }, j),
                ),
                None => None,
            }
        } else {
            parse_indexed(t, i, true)
        },
        Token::Hash => match parse_expr(t, i + 1) {
            Some((e, j)) => Some(
                (Operand { mode: AddrMode::AutoIncDef, reg: Reg::PC, extra: Extra::Imm(e) }, j),
            ),
            None => None,
        },
        _ => parse_indexed(t, i, true),
    }
}

/// Parses an operand; see [`p_operand`].
pub fn parse_operand(t: &Vec<Token>, i: usize) -> (r: Option<(Operand, usize)>)
    ensures
        p_operand(t@, i as int) == (match r {
            Some((o, j)) => Some((o, j as int)),
            None => None,
        }),
        r matches Some((_, j)) ==> i < j <= t@.len(),
{
    if i >= t.len() {
        return None;
    }
    match t[i] {
        Token::Register(r) => Some((Operand { mode: AddrMode::Gen, reg: r, extra: Extra::Absent }, i + 1)),
        Token::LParen => match parse_paren_reg(t, i) {
            Some((r, j)) => if j < t.len() && t[j] == Token::Plus {
                Some((Operand { mode: AddrMode::AutoInc, reg: r, extra: Extra::Absent }, j + 1))
            } else {
                Some((Operand { mode: AddrMode::Def, reg: r, extra: Extra::Absent }, j))
            },
            None => None,
        },
        Token::Minus => if i + 1 < t.len() && t[i + 1] == Token::LParen {
            match parse_paren_reg(t, i + 1) {
                Some((r, j)) => Some(
                    (Operand { mode: AddrMode::AutoDec, reg: r, extra: Extra::Absent }, j),
                ),
                None => None,
            }
        } else {
            parse_indexed(t, i, false)
        },
        Token::Hash => match parse_expr(t, i + 1) {
            Some((e, j)) => Some(
                (Operand { mode: AddrMode::AutoInc, reg: Reg::PC, extra: Extra::Imm(e) }, j),
            ),
            None => None,
        },
        Token::At => parse_deferred(t, i + 1),
        _ => parse_indexed(t, i, false),
    }
}

fn parse_reg(t: &Vec<Token>, i: usize) -> (r: Option<Reg>)
    ensures
        r == p_reg(t@, i as int),
        r is Some ==> i < t@.len() <= usize::MAX,
{
    if i < t.len() {
        if let Token::Register(r) = t[i] {
            return Some(r);
        }
    }
    None
}

fn is_at(t: &Vec<Token>, i: usize, tok: Token) -> (r: bool)
    ensures
        r == at(t@, i as int, tok),
{
    i < t.len() && t[i] == tok
}

fn parse_target(t: &Vec<Token>, i: usize) -> (r: Option<(Target, usize)>)
    ensures
        p_target(t@, i as int) == (match r {
            Some((x, j)) => Some((x, j as int)),
            None => None,
        }),
        r matches Some((_, j)) ==> i < j <= t@.len(),
{
    if i >= t.len() {
        return None;
    }
    match t[i] {
        Token::Ident(id) => Some((Target::Label(id), i + 1)),
        Token::TmpRef(n, fwd) => Some(
            (
                if fwd {
                    Target::TmpLabelF(n)
                } else {
                    Target::TmpLabelB(n)
                },
                i + 1,
            ),
        ),
        _ => None,
    }
}

/// Parses the operands of an instruction; see [`p_ins`].
fn parse_ins(t: &Vec<Token>, i: usize, m: Mnemonic) -> (r: Option<(Ins, usize)>)
    requires
        i <= t@.len(),
    ensures
        p_ins(t@, i as int, m) == (match r {
            Some((x, j)) => Some((x, j as int)),
            None => None,
        }),
        r matches Some((_, j)) ==> i <= j <= t@.len(),
{
    match m {
        Mnemonic::Double(op) => match parse_operand(t, i) {
            Some((src, j)) => if j < t.len() && t[j] == Token::Comma {
                match parse_operand(t, j + 1) {
                    Some((dst, k)) => Some((Ins::DoubleOperand(DoubleOperandIns { op, src, dst }), k)),
                    None => None,
                }
            } else {
                None
            },
            None => None,
        },
        Mnemonic::Branch(op) => match parse_target(t, i) {
            Some((target, j)) => Some((Ins::Branch(BranchIns { op, target }), j)),
            None => None,
        },
        Mnemonic::Jmp(op) => match parse_operand(t, i) {
            Some((dst, j)) => Some((Ins::Jmp(JmpIns { op, dst }), j)),
            None => None,
        },
        Mnemonic::Jsr(op) => match parse_reg(t, i) {
            Some(reg) => if i + 1 < t.len() && t[i + 1] == Token::Comma {
                match parse_operand(t, i + 2) {
                    Some((dst, j)) => Some((Ins::Jsr(JsrIns { op, reg, dst }), j)),
                    None => None,
                }
            } else {
                None
            },
            None => None,
        },
        Mnemonic::Rts(op) => match parse_reg(t, i) {
            Some(reg) => Some((Ins::Rts(RtsIns { op, reg }), i + 1)),
            None => None,
        },
        Mnemonic::Single(op) => match parse_operand(t, i) {
            Some((dst, j)) => Some((Ins::SingleOperand(SingleOperandIns { op, dst }), j)),
            None => None,
        },
        Mnemonic::Eis(op) => match parse_operand(t, i) {
            Some((operand, j)) => if j < t.len() && t[j] == Token::Comma {
                match parse_reg(t, j + 1) {
                    Some(reg) => Some((Ins::Eis(EisIns { op, reg, operand }), j + 2)),
                    None => None,
                }
            } else {
                None
            },
            None => None,
        },
        Mnemonic::CC(op) => Some((Ins::CC(CCIns { op }), i)),
        Mnemonic::Misc(op) => Some((Ins::Misc(MiscIns { op }), i)),
        Mnemonic::Trap(op) => match parse_expr(t, i) {
            Some((data, j)) => Some((Ins::Trap(TrapIns { op, data }), j)),
            None => Some((Ins::Trap(TrapIns { op, data: Expr::Atom(Atom::Val(0)) }), i)),
        },
    }
}

/// Parses a list of expressions; see [`p_exprs`].
fn parse_exprs(t: &Vec<Token>, i: usize) -> (r: (Vec<Expr>, usize))
    requires
        i <= t@.len(),
    ensures
        p_exprs(t@, i as int) == (r.0@, r.1 as int),
        i <= r.1 <= t@.len(),
{
    let mut out: Vec<Expr> = Vec::new();
    let mut k = i;
    proof {
        assert(Seq::<Expr>::empty() + p_exprs(t@, i as int).0 =~= p_exprs(t@, i as int).0);
    }
    loop
        invariant
            i <= k <= t@.len(),
            p_exprs(t@, i as int) == (out@ + p_exprs(t@, k as int).0, p_exprs(t@, k as int).1),
        ensures
            i <= k <= t@.len(),
            p_exprs(t@, i as int) == (out@, k as int),
        decreases t@.len() - k,
    {
        match parse_expr(t, k) {
            Some((e, j)) => {
                let next = if j < t.len() && t[j] == Token::Comma {
                    j + 1
                } else {
                    j
                };
                proof {
                    let (rest, m) = p_exprs(t@, next as int);
                    assert(out@ + (seq![e] + rest) =~= out@.push(e) + rest);
                }
                out.push(e);
                k = next;
            },
            None => {
                proof {
                    assert(out@ + Seq::<Expr>::empty() =~= out@);
                }
                break;
            },
        }
    }
    (out, k)
}

/// Copies the bytes `a..b` of the source.
fn copy_bytes(s: &[u8], a: usize, b: usize) -> (r: Vec<u8>)
    requires
        a <= b <= s@.len(),
    ensures
        r@ == s@.subrange(a as int, b as int),
{
    let mut out: Vec<u8> = Vec::new();
    let mut k = a;
    while k < b
        invariant
            a <= k <= b <= s@.len(),
            out@ == s@.subrange(a as int, k as int),
        decreases b - k,
    {
        out.push(s[k]);
        k = k + 1;
        assert(out@ =~= s@.subrange(a as int, k as int));
    }
    out
}

/// Parses the command of a line; see [`p_cmd`].
fn parse_cmd(s: &[u8], t: &Vec<Token>, i: usize) -> (r: Option<(Option<Cmd>, usize)>)
    requires
        i <= t@.len(),
    ensures
        p_cmd(s@, t@, i as int) == (match r {
            Some((c, j)) => Some(
                (
                    match c {
                        Some(x) => Some(x.view()),
                        None => None,
                    },
                    j as int,
                ),
            ),
            None => None,
        }),
        r matches Some((_, j)) ==> j <= t@.len(),
{
    if i >= t.len() {
        return Some((None, i));
    }
    match t[i] {
        Token::Ident(id) => if is_at(t, i + 1, Token::Eq) {
            match parse_expr(t, i + 2) {
                Some((e, j)) => Some((Some(Cmd::SymbolDef(id, e)), j)),
                None => None,
            }
        } else {
            None
        },
        Token::Dot => if is_at(t, i + 1, Token::Eq) {
            match parse_expr(t, i + 2) {
                Some((e, j)) => Some((Some(Cmd::LocDef(e)), j)),
                None => None,
            }
        } else {
            None
        },
        Token::Word => {
            let (es, j) = parse_exprs(t, i + 1);
            Some((Some(Cmd::Words(es)), j))
        },
        Token::Byte => {
            let (es, j) = parse_exprs(t, i + 1);
            Some((Some(Cmd::Bytes(es)), j))
        },
        Token::Even => Some((Some(Cmd::Even), i + 1)),
        Token::Ascii | Token::Asciz => {
            if i + 1 < t.len() {
                if let Token::Str(a, b) = t[i + 1] {
                    if !(a <= b && b <= s.len()) {
                        return None;
                    }
                    let mut body = copy_bytes(s, a, b);
                    if t[i] == Token::Asciz {
                        body.push(0);
                    }
                    return Some((Some(Cmd::Ascii(body)), i + 2));
                }
            }
            None
        },
        Token::Mnemonic(m) => match parse_ins(t, i + 1, m) {
            Some((ins, j)) => Some((Some(Cmd::Ins(ins)), j)),
            None => None,
        },
        _ => None,
    }
}

/// Parses the tokens of one line into a statement; see [`p_line`].
pub fn parse_line(s: &[u8], t: &Vec<Token>) -> (r: Option<Stmt>)
    ensures
        p_line(s@, t@) == (match r {
            Some(st) => Some(st.view()),
            None => None,
        }),
{
    proof {
        reveal(p_line);
    }
    let (label_def, i): (Label, usize) = if t.len() >= 2 && t[1] == Token::Colon {
        match t[0] {
            Token::Ident(id) => (Label::Regular(id), 2),
            Token::TmpLabel(n) => (Label::Tmp(n), 1),
            _ => (Label::Absent, 0),
        }
    } else if t.len() >= 1 {
        match t[0] {
            Token::TmpLabel(n) => (Label::Tmp(n), 1),
            _ => (Label::Absent, 0),
        }
    } else {
        (Label::Absent, 0)
    };
    match parse_cmd(s, t, i) {
        Some((cmd, j)) => if j == t.len() {
            Some(Stmt { label_def, cmd })
        } else {
            None
        },
        None => None,
    }
}

} // verus!
