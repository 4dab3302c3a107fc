//! The statements of an assembler program.
use vstd::prelude::*;
use crate::isa::{Atom, EisOpcode, Expr, Extra, Ins, Operand, Target};
use crate::mem::{word_bytes, words_to_bytes, write_u16};

verus! {

/// The label a statement defines: none, a named one (by symbol number) or
/// a temporary one `N:`.
#[derive(Debug, Clone, Copy, PartialEq, Eq, Structural)]
pub enum Label {
    Absent,
    Regular(usize),
    Tmp(u16),
}

/// The first part of a statement that is not resolved: an expression that
/// is not a plain value (or trap data that does not fit in a byte), or a
/// branch target that is still a label.
#[derive(Debug)]
pub enum ResolvedError {
    Expr(Expr),
    Target(Target),
}

/// The expression of an operand's extra word, where it is not a plain value.
pub open spec fn operand_unresolved(o: Operand) -> Option<ResolvedError> {
    match o.extra {
        Extra::Imm(e) => if e.is_val() {
            None
        } else {
            Some(ResolvedError::Expr(e))
        },
        Extra::Rel(e) => if e.is_val() {
            None
        } else {
            Some(ResolvedError::Expr(e))
        },
        Extra::Absent => None,
    }
}

/// The first part of an instruction that is not resolved: the source
/// operand before the destination.
pub open spec fn ins_unresolved(i: Ins) -> Option<ResolvedError> {
    match i {
        Ins::DoubleOperand(x) => match operand_unresolved(x.src) {
            Some(e) => Some(e),
            None => operand_unresolved(x.dst),
        },
        Ins::Branch(x) => if x.target is Offset {
            None
        } else {
            Some(ResolvedError::Target(x.target))
        },
        Ins::Jmp(x) => operand_unresolved(x.dst),
        Ins::Jsr(x) => operand_unresolved(x.dst),
        Ins::SingleOperand(x) => operand_unresolved(x.dst),
        Ins::Eis(x) => operand_unresolved(x.operand),
        Ins::Trap(x) => if x.data_ok() {
            None
        } else {
            Some(ResolvedError::Expr(x.data))
        },
        _ => None,
    }
}

/// The first expression of a list, from `k` on, that is not a plain value.
pub open spec fn first_non_val(es: Seq<Expr>, k: int) -> Option<ResolvedError>
    decreases es.len() - k,
{
    if k < 0 || k >= es.len() {
        None
    } else if !es[k].is_val() {
        Some(ResolvedError::Expr(es[k]))
    } else {
        first_non_val(es, k + 1)
    }
}

/// What a statement asks for.
#[derive(Debug)]
pub enum Cmd {
    /// `.byte`: one byte per expression.
    Bytes(Vec<Expr>),
    /// `.word`: one word per expression.
    Words(Vec<Expr>),
    /// `.ascii` and `.asciz`: the bytes of a string.
    Ascii(Vec<u8>),
    /// `.even`: pads to an even address.
    Even,
    Ins(Ins),
    /// `name = expr`.
    SymbolDef(usize, Expr),
    /// `. = expr`: moves the location counter forward.
    LocDef(Expr),
}

/// A command, with its lists as sequences.
pub enum CmdView {
    Bytes(Seq<Expr>),
    Words(Seq<Expr>),
    Ascii(Seq<u8>),
    Even,
    Ins(Ins),
    SymbolDef(usize, Expr),
    LocDef(Expr),
}

impl Cmd {
    pub open spec fn view(&self) -> CmdView {
        match self {
            Cmd::Bytes(v) => CmdView::Bytes(v@),
            Cmd::Words(v) => CmdView::Words(v@),
            Cmd::Ascii(v) => CmdView::Ascii(v@),
            Cmd::Even => CmdView::Even,
            Cmd::Ins(i) => CmdView::Ins(*i),
            Cmd::SymbolDef(s, e) => CmdView::SymbolDef(*s, *e),
            Cmd::LocDef(e) => CmdView::LocDef(*e),
        }
    }
}

/// Every expression of the list is a plain value.
pub open spec fn all_vals(es: Seq<Expr>) -> bool {
    forall|k: int| 0 <= k < es.len() ==> (#[trigger] es[k]).is_val()
}

/// The bytes of a list of values of `.byte`.
pub open spec fn byte_values(es: Seq<Expr>) -> Seq<u8> {
    Seq::new(es.len(), |k: int| es[k].spec_val() as u8)
}

/// The bytes of a list of values of `.word`, low byte first.
pub open spec fn word_values(es: Seq<Expr>) -> Seq<u8>
    decreases es.len(),
{
    if es.len() == 0 {
        Seq::empty()
    } else {
        word_values(es.drop_last()) + word_bytes(es.last().spec_val())
    }
}

impl CmdView {
    /// Every expression is a plain value (the data of a trap within a
    /// byte), so the command can be emitted.
    pub open spec fn resolved(self) -> bool {
        match self {
            CmdView::Ins(i) => i.resolved(),
            CmdView::Bytes(es) => all_vals(es),
            CmdView::Words(es) => all_vals(es),
            CmdView::LocDef(e) => e.is_val(),
            _ => true,
        }
    }

    /// A resolved command can be emitted after `len` bytes: its bytes fit,
    /// `. =` does not go back, and division uses an even register.
    pub open spec fn emittable_at(self, len: int) -> bool {
        &&& self.resolved()
        &&& match self {
            CmdView::Bytes(es) => forall|k: int| 0 <= k < es.len() ==> (#[trigger] es[k]).spec_val() < 256,
            CmdView::LocDef(e) => e.spec_val() >= len,
            CmdView::Ins(i) => i.emittable(),
            _ => true,
        }
    }

    /// The bytes emitted after `len` bytes.
    pub open spec fn emitted(self, len: int) -> Seq<u8> {
        match self {
            CmdView::Bytes(es) => byte_values(es),
            CmdView::Words(es) => word_values(es),
            CmdView::Ascii(b) => b,
            CmdView::Even => if len % 2 == 1 {
                seq![0u8]
            } else {
                Seq::empty()
            },
            CmdView::Ins(i) => words_to_bytes(i.spec_words()),
            CmdView::SymbolDef(_, _) => Seq::empty(),
            CmdView::LocDef(e) => Seq::new((e.spec_val() - len) as nat, |k: int| 0u8),
        }
    }
}

/// One line of a program: an optional label and an optional command.
#[derive(Debug)]
pub struct Stmt {
    pub label_def: Label,
    pub cmd: Option<Cmd>,
}

/// A statement, with its command as a [`CmdView`].
pub struct StmtView {
    pub label_def: Label,
    pub cmd: Option<CmdView>,
}

impl Stmt {
    pub open spec fn view(&self) -> StmtView {
        StmtView {
            label_def: self.label_def,
            cmd: match self.cmd {
                Some(c) => Some(c.view()),
                None => None,
            },
        }
    }

    /// The statement can be emitted after `len` bytes.
    pub open spec fn emittable_at(&self, len: int) -> bool {
        match self.cmd {
            Some(c) => c.view().emittable_at(len),
            None => true,
        }
    }

    /// The bytes the statement emits after `len` bytes.
    pub open spec fn emitted(&self, len: int) -> Seq<u8> {
        match self.cmd {
            Some(c) => c.view().emitted(len),
            None => Seq::empty(),
        }
    }

    pub fn new(label_def: Label, cmd: Option<Cmd>) -> (r: Stmt)
        ensures
            r.label_def == label_def,
            r.cmd == cmd,
    {
        Stmt { label_def, cmd }
    }

    /// Whether the statement has neither label nor command.
    pub fn is_empty(&self) -> (r: bool)
        ensures
            r == (self.label_def is Absent && self.cmd is None),
    {
        match (&self.label_def, &self.cmd) {
            (Label::Absent, None) => true,
            _ => false,
        }
    }

    /// The size in bytes of the statement, where it does not depend on the
    /// address: `None` for `. =` and `.even`.
    pub fn size(&self) -> (r: Option<u16>)
        requires
            self.cmd matches Some(Cmd::Bytes(v)) ==> v@.len() <= 0xffff,
            self.cmd matches Some(Cmd::Words(v)) ==> v@.len() <= 0x7fff,
            self.cmd matches Some(Cmd::Ascii(v)) ==> v@.len() <= 0xffff,
        ensures
            r == match self.cmd {
                None => Some(0u16),
                Some(Cmd::Bytes(v)) => Some(v@.len() as u16),
                Some(Cmd::Words(v)) => Some((2 * v@.len()) as u16),
                Some(Cmd::Ascii(v)) => Some(v@.len() as u16),
                Some(Cmd::Ins(i)) => Some(i.spec_size()),
                Some(Cmd::SymbolDef(_, _)) => Some(0u16),
                Some(Cmd::LocDef(_)) => None,
                Some(Cmd::Even) => None,
            },
    {
        match &self.cmd {
            None => Some(0),
            Some(Cmd::Bytes(v)) => Some(v.len() as u16),
            Some(Cmd::Words(v)) => Some((2 * v.len()) as u16),
            Some(Cmd::Ascii(v)) => Some(v.len() as u16),
            Some(Cmd::Ins(i)) => Some(i.size()),
            Some(Cmd::SymbolDef(_, _)) => Some(0),
            Some(Cmd::LocDef(_)) => None,
            Some(Cmd::Even) => None,
        }
    }

    /// The first part of the statement that is not resolved, if any.
    pub open spec fn unresolved(self) -> Option<ResolvedError> {
        match self.cmd {
            Some(Cmd::Ins(i)) => ins_unresolved(i),
            Some(Cmd::Bytes(es)) => first_non_val(es@, 0),
            Some(Cmd::Words(es)) => first_non_val(es@, 0),
            Some(Cmd::LocDef(e)) => if e.is_val() {
                None
            } else {
                Some(ResolvedError::Expr(e))
            },
            _ => None,
        }
    }

    /// Checks that every expression of the statement is a plain value;
    /// otherwise gives the first part that is not.
    pub fn check_resolved(&self) -> (r: Result<(), ResolvedError>)
        ensures
            match self.unresolved() {
                None => r is Ok,
                Some(e) => r matches Err(x) && x == e,
            },
            r is Ok <==> match self.cmd {
                Some(c) => c.view().resolved(),
                None => true,
            },
    {
        match &self.cmd {
            None => Ok(()),
            Some(Cmd::Ins(i)) => ins_check(i),
            Some(Cmd::Bytes(es)) => list_check(es),
            Some(Cmd::Words(es)) => list_check(es),
            Some(Cmd::LocDef(e)) => if e.check_resolved() {
                Ok(())
            } else {
                Err(ResolvedError::Expr(e.copy()))
            },
            Some(_) => Ok(()),
        }
    }

    /// Whether the resolved statement can be emitted after `len` bytes.
    pub fn check_emittable(&self, len: usize) -> (r: bool)
        requires
            self.cmd matches Some(c) ==> c.view().resolved(),
        ensures
            r == self.emittable_at(len as int),
    {
        match &self.cmd {
            None => true,
            Some(Cmd::Bytes(es)) => bytes_fit(es),
            Some(Cmd::LocDef(e)) => e.unwrap_val() as usize >= len,
            Some(Cmd::Ins(i)) => match i {
                Ins::Eis(x) => !(x.op == EisOpcode::Div && x.reg.to_u16() % 2 == 1),
                _ => true,
            },
            Some(_) => true,
        }
    }

    /// Appends the bytes of the statement to `buf`.
    pub fn emit(&self, buf: &mut Vec<u8>)
        requires
            self.emittable_at(old(buf)@.len() as int),
        ensures
            final(buf)@ == old(buf)@ + self.emitted(old(buf)@.len() as int),
    {
        match &self.cmd {
            None => {
                assert(buf@ =~= buf@ + Seq::<u8>::empty());
            },
            Some(Cmd::Bytes(es)) => {
                let ghost start = buf@;
                let mut k: usize = 0;
                while k < es.len()
                    invariant
                        k <= es@.len(),
                        all_vals(es@),
                        forall|j: int| 0 <= j < es@.len() ==> (#[trigger] es@[j]).spec_val() < 256,
                        buf@ == start + byte_values(es@.take(k as int)),
                    decreases es@.len() - k,
                {
                    assert(es@[k as int].is_val());
                    let v = es[k].unwrap_val();
                    buf.push(v as u8);
                    k = k + 1;
                    assert(byte_values(es@.take(k as int)) =~= byte_values(es@.take(k - 1)).push(v as u8));
                }
                assert(es@.take(k as int) =~= es@);
            },
            Some(Cmd::Words(es)) => {
                let ghost start = buf@;
                let mut k: usize = 0;
                proof {
                    assert(es@.take(0) =~= Seq::<Expr>::empty());
                    assert(start + Seq::<u8>::empty() =~= start);
                }
                while k < es.len()
                    invariant
                        k <= es@.len(),
                        all_vals(es@),
                        buf@ == start + word_values(es@.take(k as int)),
                    decreases es@.len() - k,
                {
                    assert(es@[k as int].is_val());
                    let v = es[k].unwrap_val();
                    write_u16(buf, v);
                    k = k + 1;
                    assert(es@.take(k as int).drop_last() =~= es@.take(k - 1));
                    assert(start + word_values(es@.take(k as int)) =~= start + word_values(es@.take(k - 1)) + word_bytes(v));
                }
                assert(es@.take(k as int) =~= es@);
            },
            Some(Cmd::Ascii(b)) => {
                let mut k: usize = 0;
                let ghost start = buf@;
                while k < b.len()
                    invariant
                        k <= b@.len(),
                        buf@ == start + b@.take(k as int),
                    decreases b@.len() - k,
                {
                    buf.push(b[k]);
                    k = k + 1;
                    assert(start + b@.take(k as int) =~= (start + b@.take(k - 1)).push(b@[k - 1]));
                }
                assert(b@.take(k as int) =~= b@);
            },
            Some(Cmd::Ins(i)) => {
                i.emit(buf);
            },
            Some(Cmd::SymbolDef(_, _)) => {
                assert(buf@ =~= buf@ + Seq::<u8>::empty());
            },
            Some(Cmd::LocDef(e)) => {
                let target = e.unwrap_val() as usize;
                let ghost start = buf@;
                while buf.len() < target
                    invariant
                        start.len() <= buf@.len() <= target,
                        buf@ == start + Seq::new((buf@.len() - start.len()) as nat, |k: int| 0u8),
                    decreases target - buf@.len(),
                {
                    buf.push(0);
                    assert(start + Seq::new((buf@.len() - start.len()) as nat, |k: int| 0u8) =~= buf@);
                }
            },
            Some(Cmd::Even) => {
                if buf.len() % 2 == 1 {
                    buf.push(0);
                    assert(buf@ =~= old(buf)@ + seq![0u8]);
                } else {
                    assert(buf@ =~= buf@ + Seq::<u8>::empty());
                }
            },
        }
    }
}

/// Whether every value of the resolved list fits in a byte.
fn bytes_fit(es: &Vec<Expr>) -> (r: bool)
    requires
        all_vals(es@),
    ensures
        r == forall|k: int| 0 <= k < es@.len() ==> (#[trigger] es@[k]).spec_val() < 256,
{
    let mut k: usize = 0;
    while k < es.len()
        invariant
            k <= es@.len(),
            all_vals(es@),
            forall|j: int| 0 <= j < k ==> (#[trigger] es@[j]).spec_val() < 256,
        decreases es@.len() - k,
    {
        assert(es@[k as int].is_val());
        if es[k].unwrap_val() >= 256 {
            return false;
        }
        k = k + 1;
    }
    true
}

/// The operand's unresolved extra word, as an error.
fn operand_check(o: &Operand) -> (r: Result<(), ResolvedError>)
    ensures
        match operand_unresolved(*o) {
            None => r is Ok,
            Some(e) => r matches Err(x) && x == e,
        },
        r is Ok <==> o.resolved(),
{
    match &o.extra {
        Extra::Absent => Ok(()),
        Extra::Imm(e) => if e.check_resolved() {
            Ok(())
        } else {
            Err(ResolvedError::Expr(e.copy()))
        },
        Extra::Rel(e) => if e.check_resolved() {
            Ok(())
        } else {
            Err(ResolvedError::Expr(e.copy()))
        },
    }
}

/// The instruction's first unresolved part, as an error.
fn ins_check(i: &Ins) -> (r: Result<(), ResolvedError>)
    ensures
        match ins_unresolved(*i) {
            None => r is Ok,
            Some(e) => r matches Err(x) && x == e,
        },
        r is Ok <==> i.resolved(),
{
    match i {
        Ins::DoubleOperand(x) => {
            operand_check(&x.src)?;
            operand_check(&x.dst)
        },
        Ins::Branch(x) => match x.target {
            Target::Offset(_) => Ok(()),
            t => Err(ResolvedError::Target(t)),
        },
        Ins::Jmp(x) => operand_check(&x.dst),
        Ins::Jsr(x) => operand_check(&x.dst),
        Ins::SingleOperand(x) => operand_check(&x.dst),
        Ins::Eis(x) => operand_check(&x.operand),
        Ins::Trap(x) => if x.data.check_resolved() && x.data.unwrap_val() < 256 {
            Ok(())
        } else {
            Err(ResolvedError::Expr(x.data.copy()))
        },
        _ => Ok(()),
    }
}

/// The first expression of the list that is not a plain value, as an error.
fn list_check(es: &Vec<Expr>) -> (r: Result<(), ResolvedError>)
    ensures
        match first_non_val(es@, 0) {
            None => r is Ok,
            Some(e) => r matches Err(x) && x == e,
        },
        r is Ok <==> all_vals(es@),
{
    let mut k: usize = 0;
    while k < es.len()
        invariant
            k <= es@.len(),
            forall|j: int| 0 <= j < k ==> (#[trigger] es@[j]).is_val(),
            first_non_val(es@, 0) == first_non_val(es@, k as int),
        decreases es@.len() - k,
    {
        if !es[k].check_resolved() {
            return Err(ResolvedError::Expr(es[k].copy()));
        }
        k = k + 1;
    }
    Ok(())
}

} // verus!
