//! Splitting assembler source into tokens.
use vstd::prelude::*;
use crate::isa::{
    BranchOpcode, CCOpcode, DoubleOperandOpcode, EisOpcode, JmpOpcode, JsrOpcode, MiscOpcode,
    Reg, RtsOpcode, SingleOperandOpcode, TrapOpcode,
};

verus! {

/// An instruction name: its format and opcode.
#[derive(Debug, Clone, Copy, PartialEq, Eq, Structural)]
pub enum Mnemonic {
    Double(DoubleOperandOpcode),
    Branch(BranchOpcode),
    Jmp(JmpOpcode),
    Jsr(JsrOpcode),
    Rts(RtsOpcode),
    Single(SingleOperandOpcode),
    Eis(EisOpcode),
    CC(CCOpcode),
    Misc(MiscOpcode),
    Trap(TrapOpcode),
}

/// A token of assembler source. Names are first spans of the source and
/// become symbol numbers once the names of a program are collected.
#[derive(Debug, Clone, Copy, PartialEq, Eq, Structural)]
pub enum Token {
    /// A name, by its span in the source.
    Name(usize, usize),
    /// A symbol, by its number.
    Ident(usize),
    Register(Reg),
    Mnemonic(Mnemonic),
    Word,
    Byte,
    Even,
    Ascii,
    Asciz,
    /// `.`, the location counter.
    Dot,
    /// A number: octal, or decimal with a trailing `.`.
    Num(u16),
    /// A reference `Nf` (forward) or `Nb` to a temporary label.
    TmpRef(u16, bool),
    /// A temporary label definition `N:`.
    TmpLabel(u16),
    /// A character literal `'c`.
    Char(u8),
    /// A string literal, by the span of its contents.
    Str(usize, usize),
    Comma,
    Colon,
    Eq,
    LParen,
    RParen,
    Plus,
    Minus,
    Amp,
    Bang,
    Hash,
    At,
    Newline,
}

pub open spec fn is_letter(c: u8) -> bool {
    (97 <= c <= 122) || (65 <= c <= 90) || c == 95
}

pub open spec fn is_digit(c: u8) -> bool {
    48 <= c <= 57
}

pub open spec fn is_name_char(c: u8) -> bool {
    is_letter(c) || is_digit(c)
}

/// Blanks between tokens: space, tab and carriage return.
pub open spec fn is_blank(c: u8) -> bool {
    c == 32 || c == 9 || c == 13
}

pub open spec fn digit_pred() -> spec_fn(u8) -> bool {
    |c: u8| is_digit(c)
}

pub open spec fn name_pred() -> spec_fn(u8) -> bool {
    |c: u8| is_name_char(c)
}

/// Characters of a comment: all but the end of the line.
pub open spec fn comment_pred() -> spec_fn(u8) -> bool {
    |c: u8| c != 10
}

/// Characters of a string: all but the closing quote and the end of the line.
pub open spec fn string_pred() -> spec_fn(u8) -> bool {
    |c: u8| c != 34 && c != 10
}

/// The end of the run of characters satisfying `p` that starts at `i`.
pub open spec fn run_end(s: Seq<u8>, i: int, p: spec_fn(u8) -> bool) -> int
    decreases s.len() - i,
{
    if 0 <= i < s.len() && p(s[i]) {
        run_end(s, i + 1, p)
    } else {
        i
    }
}

pub proof fn lemma_run_end(s: Seq<u8>, i: int, p: spec_fn(u8) -> bool)
    requires
        0 <= i <= s.len(),
    ensures
        i <= run_end(s, i, p) <= s.len(),
        forall|k: int| i <= k < run_end(s, i, p) ==> p(#[trigger] s[k]),
        run_end(s, i, p) < s.len() ==> !p(s[run_end(s, i, p)]),
    decreases s.len() - i,
{
    if i < s.len() && p(s[i]) {
        lemma_run_end(s, i + 1, p);
    }
}

/// The value of a run of decimal digit characters in base `base`.
pub open spec fn digits_value(d: Seq<u8>, base: int) -> int
    decreases d.len(),
{
    if d.len() == 0 {
        0
    } else {
        digits_value(d.drop_last(), base) * base + (d.last() - 48)
    }
}

/// Whether every digit is octal.
pub open spec fn all_octal(d: Seq<u8>) -> bool {
    forall|k: int| 0 <= k < d.len() ==> d[k] < 56
}

/// The token of a number starting at `i` and the position after it: octal
/// digits; decimal digits and `.`; decimal digits and `b` or `f` (not
/// followed by a name character), a temporary label reference; decimal
/// digits and `:`, a temporary label. `None` where the value does not fit
/// in a word or an octal number has a digit 8 or 9.
pub open spec fn scan_number(s: Seq<u8>, i: int) -> Option<(Token, int)> {
    let e = run_end(s, i, digit_pred());
    let d = s.subrange(i, e);
    let dec = digits_value(d, 10);
    if e < s.len() && s[e] == 46 {
        if dec < 65536 {
            Some((Token::Num(dec as u16), e + 1))
        } else {
            None
        }
    } else if e < s.len() && (s[e] == 98 || s[e] == 102) && !(e + 1 < s.len() && is_name_char(
        s[e + 1],
    )) {
        if dec < 65536 {
            Some((Token::TmpRef(dec as u16, s[e] == 102), e + 1))
        } else {
            None
        }
    } else if e < s.len() && s[e] == 58 {
        if dec < 65536 {
            Some((Token::TmpLabel(dec as u16), e + 1))
        } else {
            None
        }
    } else if all_octal(d) && digits_value(d, 8) < 65536 {
        Some((Token::Num(digits_value(d, 8) as u16), e))
    } else {
        None
    }
}

/// The token of a punctuation character.
pub open spec fn punct(c: u8) -> Option<Token> {
    if c == 44 {
        Some(Token::Comma)
    } else if c == 58 {
        Some(Token::Colon)
    } else if c == 61 {
        Some(Token::Eq)
    } else if c == 40 {
        Some(Token::LParen)
    } else if c == 41 {
        Some(Token::RParen)
    } else if c == 43 {
        Some(Token::Plus)
    } else if c == 45 {
        Some(Token::Minus)
    } else if c == 38 {
        Some(Token::Amp)
    } else if c == 33 {
        Some(Token::Bang)
    } else if c == 35 {
        Some(Token::Hash)
    } else if c == 64 {
        Some(Token::At)
    } else if c == 10 {
        Some(Token::Newline)
    } else {
        None
    }
}

/// The token starting at `i` (not a blank and not a comment) and the
/// position after it; `None` where no token starts there.
pub open spec fn scan(s: Seq<u8>, i: int) -> Option<(Token, int)> {
    let c = s[i];
    if is_letter(c) {
        let e = run_end(s, i, name_pred());
        match spec_keyword(s.subrange(i, e)) {
            Some(t) => Some((t, e)),
            None => Some((Token::Name(i as usize, e as usize), e)),
        }
    } else if c == 46 {
        if i + 1 < s.len() && is_letter(s[i + 1]) {
            let e = run_end(s, i + 1, name_pred());
            match spec_directive(s.subrange(i + 1, e)) {
                Some(t) => Some((t, e)),
                None => None,
            }
        } else {
            Some((Token::Dot, i + 1))
        }
    } else if is_digit(c) {
        scan_number(s, i)
    } else if c == 39 {
        if i + 1 < s.len() {
            Some((Token::Char(s[i + 1]), i + 2))
        } else {
            None
        }
    } else if c == 34 {
        let e = run_end(s, i + 1, string_pred());
        if e < s.len() && s[e] == 34 {
            Some((Token::Str((i + 1) as usize, e as usize), e + 1))
        } else {
            None
        }
    } else {
        match punct(c) {
            Some(t) => Some((t, i + 1)),
            None => None,
        }
    }
}

/// Lexing fails only at a position inside the source.
pub proof fn lemma_lex_from_err_bound(s: Seq<u8>, i: int)
    requires
        0 <= i,
    ensures
        lex_from(s, i) matches Err(p) ==> p < s.len(),
    decreases s.len() - i,
{
    if i < s.len() {
        if is_blank(s[i]) {
            lemma_lex_from_err_bound(s, i + 1);
        } else if s[i] == 59 {
            lemma_run_end(s, i + 1, comment_pred());
            lemma_lex_from_err_bound(s, run_end(s, i + 1, comment_pred()));
        } else {
            match scan(s, i) {
                Some((t, j)) => if i < j <= s.len() {
                    lemma_lex_from_err_bound(s, j);
                },
                None => {},
            }
        }
    }
}

/// The tokens `p` followed by the outcome `r` of lexing the rest.
pub open spec fn prepend(p: Seq<Token>, r: Result<Seq<Token>, usize>) -> Result<Seq<Token>, usize> {
    match r {
        Ok(q) => Ok(p + q),
        Err(e) => Err(e),
    }
}

/// The tokens of the source from `i` on, blanks and comments (from `;` to
/// the end of the line) skipped; the position where no token can start on
/// failure.
pub open spec fn lex_from(s: Seq<u8>, i: int) -> Result<Seq<Token>, usize>
    decreases s.len() - i,
{
    if i < 0 || i >= s.len() {
        Ok(Seq::empty())
    } else if is_blank(s[i]) {
        lex_from(s, i + 1)
    } else if s[i] == 59 {
        proof {
            lemma_run_end(s, i + 1, comment_pred());
        }
        lex_from(s, run_end(s, i + 1, comment_pred()))
    } else {
        match scan(s, i) {
            Some((t, j)) => if i < j <= s.len() {
                match lex_from(s, j) {
                    Ok(rest) => Ok(seq![t] + rest),
                    Err(p) => Err(p),
                }
            } else {
                Err(i as usize)
            },
            None => Err(i as usize),
        }
    }
}

/// The instruction or register a name stands for, if any.
pub open spec fn spec_keyword(name: Seq<u8>) -> Option<Token> {
    if name == seq![109u8, 111u8, 118u8] {
        Some(Token::Mnemonic(Mnemonic::Double(DoubleOperandOpcode::Mov)))
    } else if name == seq![99u8, 109u8, 112u8] {
        Some(Token::Mnemonic(Mnemonic::Double(DoubleOperandOpcode::Cmp)))
    } else if name == seq![98u8, 105u8, 116u8] {
        Some(Token::Mnemonic(Mnemonic::Double(DoubleOperandOpcode::Bit)))
    } else if name == seq![98u8, 105u8, 99u8] {
        Some(Token::Mnemonic(Mnemonic::Double(DoubleOperandOpcode::Bic)))
    } else if name == seq![98u8, 105u8, 115u8] {
        Some(Token::Mnemonic(Mnemonic::Double(DoubleOperandOpcode::Bis)))
    } else if name == seq![97u8, 100u8, 100u8] {
        Some(Token::Mnemonic(Mnemonic::Double(DoubleOperandOpcode::Add)))
    } else if name == seq![109u8, 111u8, 118u8, 98u8] {
        Some(Token::Mnemonic(Mnemonic::Double(DoubleOperandOpcode::MovB)))
    } else if name == seq![99u8, 109u8, 112u8, 98u8] {
        Some(Token::Mnemonic(Mnemonic::Double(DoubleOperandOpcode::CmpB)))
    } else if name == seq![98u8, 105u8, 116u8, 98u8] {
        Some(Token::Mnemonic(Mnemonic::Double(DoubleOperandOpcode::BitB)))
    } else if name == seq![98u8, 105u8, 99u8, 98u8] {
        Some(Token::Mnemonic(Mnemonic::Double(DoubleOperandOpcode::BicB)))
    } else if name == seq![98u8, 105u8, 115u8, 98u8] {
        Some(Token::Mnemonic(Mnemonic::Double(DoubleOperandOpcode::BisB)))
    } else if name == seq![115u8, 117u8, 98u8] {
        Some(Token::Mnemonic(Mnemonic::Double(DoubleOperandOpcode::Sub)))
    } else if name == seq![98u8, 114u8] {
        Some(Token::Mnemonic(Mnemonic::Branch(BranchOpcode::Br)))
    } else if name == seq![98u8, 110u8, 101u8] {
        Some(Token::Mnemonic(Mnemonic::Branch(BranchOpcode::Bne)))
    } else if name == seq![98u8, 101u8, 113u8] {
        Some(Token::Mnemonic(Mnemonic::Branch(BranchOpcode::Beq)))
    } else if name == seq![98u8, 103u8, 101u8] {
        Some(Token::Mnemonic(Mnemonic::Branch(BranchOpcode::Bge)))
    } else if name == seq![98u8, 108u8, 116u8] {
        Some(Token::Mnemonic(Mnemonic::Branch(BranchOpcode::Blt)))
    } else if name == seq![98u8, 103u8, 116u8] {
        Some(Token::Mnemonic(Mnemonic::Branch(BranchOpcode::Bgt)))
    } else if name == seq![98u8, 108u8, 101u8] {
        Some(Token::Mnemonic(Mnemonic::Branch(BranchOpcode::Ble)))
    } else if name == seq![98u8, 112u8, 108u8] {
        Some(Token::Mnemonic(Mnemonic::Branch(BranchOpcode::Bpl)))
    } else if name == seq![98u8, 109u8, 105u8] {
        Some(Token::Mnemonic(Mnemonic::Branch(BranchOpcode::Bmi)))
    } else if name == seq![98u8, 104u8, 105u8] {
        Some(Token::Mnemonic(Mnemonic::Branch(BranchOpcode::Bhi)))
    } else if name == seq![98u8, 108u8, 111u8, 115u8] {
        Some(Token::Mnemonic(Mnemonic::Branch(BranchOpcode::Blos)))
    } else if name == seq![98u8, 118u8, 99u8] {
        Some(Token::Mnemonic(Mnemonic::Branch(BranchOpcode::Bvc)))
    } else if name == seq![98u8, 118u8, 115u8] {
        Some(Token::Mnemonic(Mnemonic::Branch(BranchOpcode::Bvs)))
    } else if name == seq![98u8, 99u8, 99u8] {
        Some(Token::Mnemonic(Mnemonic::Branch(BranchOpcode::Bcc)))
    } else if name == seq![98u8, 99u8, 115u8] {
        Some(Token::Mnemonic(Mnemonic::Branch(BranchOpcode::Bcs)))
    } else if name == seq![98u8, 104u8, 105u8, 115u8] {
        Some(Token::Mnemonic(Mnemonic::Branch(BranchOpcode::Bcc)))
    } else if name == seq![98u8, 108u8, 111u8] {
        Some(Token::Mnemonic(Mnemonic::Branch(BranchOpcode::Bcs)))
    } else if name == seq![106u8, 109u8, 112u8] {
        Some(Token::Mnemonic(Mnemonic::Jmp(JmpOpcode::Jmp)))
    } else if name == seq![106u8, 115u8, 114u8] {
        Some(Token::Mnemonic(Mnemonic::Jsr(JsrOpcode::Jsr)))
    } else if name == seq![114u8, 116u8, 115u8] {
        Some(Token::Mnemonic(Mnemonic::Rts(RtsOpcode::Rts)))
    } else if name == seq![115u8, 119u8, 97u8, 98u8] {
        Some(Token::Mnemonic(Mnemonic::Single(SingleOperandOpcode::Swab)))
    } else if name == seq![99u8, 108u8, 114u8] {
        Some(Token::Mnemonic(Mnemonic::Single(SingleOperandOpcode::Clr)))
    } else if name == seq![99u8, 111u8, 109u8] {
        Some(Token::Mnemonic(Mnemonic::Single(SingleOperandOpcode::Com)))
    } else if name == seq![105u8, 110u8, 99u8] {
        Some(Token::Mnemonic(Mnemonic::Single(SingleOperandOpcode::Inc)))
    } else if name == seq![100u8, 101u8, 99u8] {
        Some(Token::Mnemonic(Mnemonic::Single(SingleOperandOpcode::Dec)))
    } else if name == seq![110u8, 101u8, 103u8] {
        Some(Token::Mnemonic(Mnemonic::Single(SingleOperandOpcode::Neg)))
    } else if name == seq![97u8, 100u8, 99u8] {
        Some(Token::Mnemonic(Mnemonic::Single(SingleOperandOpcode::Adc)))
    } else if name == seq![115u8, 98u8, 99u8] {
        Some(Token::Mnemonic(Mnemonic::Single(SingleOperandOpcode::Sbc)))
    } else if name == seq![116u8, 115u8, 116u8] {
        Some(Token::Mnemonic(Mnemonic::Single(SingleOperandOpcode::Tst)))
    } else if name == seq![114u8, 111u8, 114u8] {
        Some(Token::Mnemonic(Mnemonic::Single(SingleOperandOpcode::Ror)))
    } else if name == seq![114u8, 111u8, 108u8] {
        Some(Token::Mnemonic(Mnemonic::Single(SingleOperandOpcode::Rol)))
    } else if name == seq![97u8, 115u8, 114u8] {
        Some(Token::Mnemonic(Mnemonic::Single(SingleOperandOpcode::Asr)))
    } else if name == seq![97u8, 115u8, 108u8] {
        Some(Token::Mnemonic(Mnemonic::Single(SingleOperandOpcode::Asl)))
    } else if name == seq![99u8, 108u8, 114u8, 98u8] {
        Some(Token::Mnemonic(Mnemonic::Single(SingleOperandOpcode::ClrB)))
    } else if name == seq![99u8, 111u8, 109u8, 98u8] {
        Some(Token::Mnemonic(Mnemonic::Single(SingleOperandOpcode::ComB)))
    } else if name == seq![105u8, 110u8, 99u8, 98u8] {
        Some(Token::Mnemonic(Mnemonic::Single(SingleOperandOpcode::IncB)))
    } else if name == seq![100u8, 101u8, 99u8, 98u8] {
        Some(Token::Mnemonic(Mnemonic::Single(SingleOperandOpcode::DecB)))
    } else if name == seq![110u8, 101u8, 103u8, 98u8] {
        Some(Token::Mnemonic(Mnemonic::Single(SingleOperandOpcode::NegB)))
    } else if name == seq![97u8, 100u8, 99u8, 98u8] {
        Some(Token::Mnemonic(Mnemonic::Single(SingleOperandOpcode::AdcB)))
    } else if name == seq![115u8, 98u8, 99u8, 98u8] {
        Some(Token::Mnemonic(Mnemonic::Single(SingleOperandOpcode::SbcB)))
    } else if name == seq![116u8, 115u8, 116u8, 98u8] {
        Some(Token::Mnemonic(Mnemonic::Single(SingleOperandOpcode::TstB)))
    } else if name == seq![114u8, 111u8, 114u8, 98u8] {
        Some(Token::Mnemonic(Mnemonic::Single(SingleOperandOpcode::RorB)))
    } else if name == seq![114u8, 111u8, 108u8, 98u8] {
        Some(Token::Mnemonic(Mnemonic::Single(SingleOperandOpcode::RolB)))
    } else if name == seq![97u8, 115u8, 114u8, 98u8] {
        Some(Token::Mnemonic(Mnemonic::Single(SingleOperandOpcode::AsrB)))
    } else if name == seq![97u8, 115u8, 108u8, 98u8] {
        Some(Token::Mnemonic(Mnemonic::Single(SingleOperandOpcode::AslB)))
    } else if name == seq![109u8, 117u8, 108u8] {
        Some(Token::Mnemonic(Mnemonic::Eis(EisOpcode::Mul)))
    } else if name == seq![100u8, 105u8, 118u8] {
        Some(Token::Mnemonic(Mnemonic::Eis(EisOpcode::Div)))
    } else if name == seq![97u8, 115u8, 104u8] {
        Some(Token::Mnemonic(Mnemonic::Eis(EisOpcode::Ash)))
    } else if name == seq![97u8, 115u8, 104u8, 99u8] {
        Some(Token::Mnemonic(Mnemonic::Eis(EisOpcode::Ashc)))
    } else if name == seq![120u8, 111u8, 114u8] {
        Some(Token::Mnemonic(Mnemonic::Eis(EisOpcode::Xor)))
    } else if name == seq![110u8, 111u8, 112u8] {
        Some(Token::Mnemonic(Mnemonic::CC(CCOpcode::Nop)))
    } else if name == seq![99u8, 108u8, 99u8] {
        Some(Token::Mnemonic(Mnemonic::CC(CCOpcode::Clc)))
    } else if name == seq![99u8, 108u8, 118u8] {
        Some(Token::Mnemonic(Mnemonic::CC(CCOpcode::Clv)))
    } else if name == seq![99u8, 108u8, 122u8] {
        Some(Token::Mnemonic(Mnemonic::CC(CCOpcode::Clz)))
    } else if name == seq![99u8, 108u8, 110u8] {
        Some(Token::Mnemonic(Mnemonic::CC(CCOpcode::Cln)))
    } else if name == seq![115u8, 101u8, 99u8] {
        Some(Token::Mnemonic(Mnemonic::CC(CCOpcode::Sec)))
    } else if name == seq![115u8, 101u8, 118u8] {
        Some(Token::Mnemonic(Mnemonic::CC(CCOpcode::Sev)))
    } else if name == seq![115u8, 101u8, 122u8] {
        Some(Token::Mnemonic(Mnemonic::CC(CCOpcode::Sez)))
    } else if name == seq![115u8, 101u8, 110u8] {
        Some(Token::Mnemonic(Mnemonic::CC(CCOpcode::Sen)))
    } else if name == seq![104u8, 97u8, 108u8, 116u8] {
        Some(Token::Mnemonic(Mnemonic::Misc(MiscOpcode::Halt)))
    } else if name == seq![119u8, 97u8, 105u8, 116u8] {
        Some(Token::Mnemonic(Mnemonic::Misc(MiscOpcode::Wait)))
    } else if name == seq![114u8, 116u8, 105u8] {
        Some(Token::Mnemonic(Mnemonic::Misc(MiscOpcode::Rti)))
    } else if name == seq![105u8, 111u8, 120u8] {
        Some(Token::Mnemonic(Mnemonic::Misc(MiscOpcode::Iox)))
    } else if name == seq![105u8, 111u8, 116u8] {
        Some(Token::Mnemonic(Mnemonic::Misc(MiscOpcode::Iot)))
    } else if name == seq![114u8, 101u8, 115u8, 101u8, 116u8] {
        Some(Token::Mnemonic(Mnemonic::Misc(MiscOpcode::Reset)))
    } else if name == seq![101u8, 109u8, 116u8] {
        Some(Token::Mnemonic(Mnemonic::Trap(TrapOpcode::Emt)))
    } else if name == seq![116u8, 114u8, 97u8, 112u8] {
        Some(Token::Mnemonic(Mnemonic::Trap(TrapOpcode::Trap)))
    } else if name == seq![114u8, 48u8] {
        Some(Token::Register(Reg::R0))
    } else if name == seq![114u8, 49u8] {
        Some(Token::Register(Reg::R1))
    } else if name == seq![114u8, 50u8] {
        Some(Token::Register(Reg::R2))
    } else if name == seq![114u8, 51u8] {
        Some(Token::Register(Reg::R3))
    } else if name == seq![114u8, 52u8] {
        Some(Token::Register(Reg::R4))
    } else if name == seq![114u8, 53u8] {
        Some(Token::Register(Reg::R5))
    } else if name == seq![114u8, 54u8] {
        Some(Token::Register(Reg::SP))
    } else if name == seq![114u8, 55u8] {
        Some(Token::Register(Reg::PC))
    } else if name == seq![115u8, 112u8] {
        Some(Token::Register(Reg::SP))
    } else if name == seq![112u8, 99u8] {
        Some(Token::Register(Reg::PC))
    } else {
        None
    }
}

/// The directive a name after a dot stands for, if any.
pub open spec fn spec_directive(name: Seq<u8>) -> Option<Token> {
    if name == seq![119u8, 111u8, 114u8, 100u8] {
        Some(Token::Word)
    } else if name == seq![98u8, 121u8, 116u8, 101u8] {
        Some(Token::Byte)
    } else if name == seq![101u8, 118u8, 101u8, 110u8] {
        Some(Token::Even)
    } else if name == seq![97u8, 115u8, 99u8, 105u8, 105u8] {
        Some(Token::Ascii)
    } else if name == seq![97u8, 115u8, 99u8, 105u8, 122u8] {
        Some(Token::Asciz)
    } else {
        None
    }
}

/// Whether the bytes `start..end` of `s` are those of `lit`.
fn eq_lit(s: &[u8], start: usize, end: usize, lit: &[u8]) -> (r: bool)
    requires
        start <= end <= s@.len(),
    ensures
        r == (s@.subrange(start as int, end as int) == lit@),
{
    if end - start != lit.len() {
        return false;
    }
    let mut k: usize = 0;
    while k < lit.len()
        invariant
            start <= end <= s@.len(),
            end - start == lit@.len(),
            k <= lit@.len(),
            forall|j: int| 0 <= j < k ==> s@[start + j] == lit@[j],
        decreases lit@.len() - k,
    {
        if s[start + k] != lit[k] {
            return false;
        }
        k = k + 1;
    }
    assert(s@.subrange(start as int, end as int) =~= lit@);
    true
}

/// Looks a name up among the mnemonics and registers.
fn keyword(s: &[u8], start: usize, end: usize) -> (r: Option<Token>)
    requires
        start <= end <= s@.len(),
    ensures
        r == spec_keyword(s@.subrange(start as int, end as int)),
{
    let lit: [u8; 3] = [109u8, 111u8, 118u8];
    proof {
        assert(lit@ == seq![109u8, 111u8, 118u8]);
    }
    if eq_lit(s, start, end, lit.as_slice()) {
        return Some(Token::Mnemonic(Mnemonic::Double(DoubleOperandOpcode::Mov)));
    }
    let lit: [u8; 3] = [99u8, 109u8, 112u8];
    proof {
        assert(lit@ == seq![99u8, 109u8, 112u8]);
    }
    if eq_lit(s, start, end, lit.as_slice()) {
        return Some(Token::Mnemonic(Mnemonic::Double(DoubleOperandOpcode::Cmp)));
    }
    let lit: [u8; 3] = [98u8, 105u8, 116u8];
    proof {
        assert(lit@ == seq![98u8, 105u8, 116u8]);
    }
    if eq_lit(s, start, end, lit.as_slice()) {
        return Some(Token::Mnemonic(Mnemonic::Double(DoubleOperandOpcode::Bit)));
    }
    let lit: [u8; 3] = [98u8, 105u8, 99u8];
    proof {
        assert(lit@ == seq![98u8, 105u8, 99u8]);
    }
    if eq_lit(s, start, end, lit.as_slice()) {
        return Some(Token::Mnemonic(Mnemonic::Double(DoubleOperandOpcode::Bic)));
    }
    let lit: [u8; 3] = [98u8, 105u8, 115u8];
    proof {
        assert(lit@ == seq![98u8, 105u8, 115u8]);
    }
    if eq_lit(s, start, end, lit.as_slice()) {
        return Some(Token::Mnemonic(Mnemonic::Double(DoubleOperandOpcode::Bis)));
    }
    let lit: [u8; 3] = [97u8, 100u8, 100u8];
    proof {
        assert(lit@ == seq![97u8, 100u8, 100u8]);
    }
    if eq_lit(s, start, end, lit.as_slice()) {
        return Some(Token::Mnemonic(Mnemonic::Double(DoubleOperandOpcode::Add)));
    }
    let lit: [u8; 4] = [109u8, 111u8, 118u8, 98u8];
    proof {
        assert(lit@ == seq![109u8, 111u8, 118u8, 98u8]);
    }
    if eq_lit(s, start, end, lit.as_slice()) {
        return Some(Token::Mnemonic(Mnemonic::Double(DoubleOperandOpcode::MovB)));
    }
    let lit: [u8; 4] = [99u8, 109u8, 112u8, 98u8];
    proof {
        assert(lit@ == seq![99u8, 109u8, 112u8, 98u8]);
    }
    if eq_lit(s, start, end, lit.as_slice()) {
        return Some(Token::Mnemonic(Mnemonic::Double(DoubleOperandOpcode::CmpB)));
    }
    let lit: [u8; 4] = [98u8, 105u8, 116u8, 98u8];
    proof {
        assert(lit@ == seq![98u8, 105u8, 116u8, 98u8]);
    }
    if eq_lit(s, start, end, lit.as_slice()) {
        return Some(Token::Mnemonic(Mnemonic::Double(DoubleOperandOpcode::BitB)));
    }
    let lit: [u8; 4] = [98u8, 105u8, 99u8, 98u8];
    proof {
        assert(lit@ == seq![98u8, 105u8, 99u8, 98u8]);
    }
    if eq_lit(s, start, end, lit.as_slice()) {
        return Some(Token::Mnemonic(Mnemonic::Double(DoubleOperandOpcode::BicB)));
    }
    let lit: [u8; 4] = [98u8, 105u8, 115u8, 98u8];
    proof {
        assert(lit@ == seq![98u8, 105u8, 115u8, 98u8]);
    }
    if eq_lit(s, start, end, lit.as_slice()) {
        return Some(Token::Mnemonic(Mnemonic::Double(DoubleOperandOpcode::BisB)));
    }
    let lit: [u8; 3] = [115u8, 117u8, 98u8];
    proof {
        assert(lit@ == seq![115u8, 117u8, 98u8]);
    }
    if eq_lit(s, start, end, lit.as_slice()) {
        return Some(Token::Mnemonic(Mnemonic::Double(DoubleOperandOpcode::Sub)));
    }
    let lit: [u8; 2] = [98u8, 114u8];
    proof {
        assert(lit@ == seq![98u8, 114u8]);
    }
    if eq_lit(s, start, end, lit.as_slice()) {
        return Some(Token::Mnemonic(Mnemonic::Branch(BranchOpcode::Br)));
    }
    let lit: [u8; 3] = [98u8, 110u8, 101u8];
    proof {
        assert(lit@ == seq![98u8, 110u8, 101u8]);
    }
    if eq_lit(s, start, end, lit.as_slice()) {
        return Some(Token::Mnemonic(Mnemonic::Branch(BranchOpcode::Bne)));
    }
    let lit: [u8; 3] = [98u8, 101u8, 113u8];
    proof {
        assert(lit@ == seq![98u8, 101u8, 113u8]);
    }
    if eq_lit(s, start, end, lit.as_slice()) {
        return Some(Token::Mnemonic(Mnemonic::Branch(BranchOpcode::Beq)));
    }
    let lit: [u8; 3] = [98u8, 103u8, 101u8];
    proof {
        assert(lit@ == seq![98u8, 103u8, 101u8]);
    }
    if eq_lit(s, start, end, lit.as_slice()) {
        return Some(Token::Mnemonic(Mnemonic::Branch(BranchOpcode::Bge)));
    }
    let lit: [u8; 3] = [98u8, 108u8, 116u8];
    proof {
        assert(lit@ == seq![98u8, 108u8, 116u8]);
    }
    if eq_lit(s, start, end, lit.as_slice()) {
        return Some(Token::Mnemonic(Mnemonic::Branch(BranchOpcode::Blt)));
    }
    let lit: [u8; 3] = [98u8, 103u8, 116u8];
    proof {
        assert(lit@ == seq![98u8, 103u8, 116u8]);
    }
    if eq_lit(s, start, end, lit.as_slice()) {
        return Some(Token::Mnemonic(Mnemonic::Branch(BranchOpcode::Bgt)));
    }
    let lit: [u8; 3] = [98u8, 108u8, 101u8];
    proof {
        assert(lit@ == seq![98u8, 108u8, 101u8]);
    }
    if eq_lit(s, start, end, lit.as_slice()) {
        return Some(Token::Mnemonic(Mnemonic::Branch(BranchOpcode::Ble)));
    }
    let lit: [u8; 3] = [98u8, 112u8, 108u8];
    proof {
        assert(lit@ == seq![98u8, 112u8, 108u8]);
    }
    if eq_lit(s, start, end, lit.as_slice()) {
        return Some(Token::Mnemonic(Mnemonic::Branch(BranchOpcode::Bpl)));
    }
    let lit: [u8; 3] = [98u8, 109u8, 105u8];
    proof {
        assert(lit@ == seq![98u8, 109u8, 105u8]);
    }
    if eq_lit(s, start, end, lit.as_slice()) {
        return Some(Token::Mnemonic(Mnemonic::Branch(BranchOpcode::Bmi)));
    }
    let lit: [u8; 3] = [98u8, 104u8, 105u8];
    proof {
        assert(lit@ == seq![98u8, 104u8, 105u8]);
    }
    if eq_lit(s, start, end, lit.as_slice()) {
        return Some(Token::Mnemonic(Mnemonic::Branch(BranchOpcode::Bhi)));
    }
    let lit: [u8; 4] = [98u8, 108u8, 111u8, 115u8];
    proof {
        assert(lit@ == seq![98u8, 108u8, 111u8, 115u8]);
    }
    if eq_lit(s, start, end, lit.as_slice()) {
        return Some(Token::Mnemonic(Mnemonic::Branch(BranchOpcode::Blos)));
    }
    let lit: [u8; 3] = [98u8, 118u8, 99u8];
    proof {
        assert(lit@ == seq![98u8, 118u8, 99u8]);
    }
    if eq_lit(s, start, end, lit.as_slice()) {
        return Some(Token::Mnemonic(Mnemonic::Branch(BranchOpcode::Bvc)));
    }
    let lit: [u8; 3] = [98u8, 118u8, 115u8];
    proof {
        assert(lit@ == seq![98u8, 118u8, 115u8]);
    }
    if eq_lit(s, start, end, lit.as_slice()) {
        return Some(Token::Mnemonic(Mnemonic::Branch(BranchOpcode::Bvs)));
    }
    let lit: [u8; 3] = [98u8, 99u8, 99u8];
    proof {
        assert(lit@ == seq![98u8, 99u8, 99u8]);
    }
    if eq_lit(s, start, end, lit.as_slice()) {
        return Some(Token::Mnemonic(Mnemonic::Branch(BranchOpcode::Bcc)));
    }
    let lit: [u8; 3] = [98u8, 99u8, 115u8];
    proof {
        assert(lit@ == seq![98u8, 99u8, 115u8]);
    }
    if eq_lit(s, start, end, lit.as_slice()) {
        return Some(Token::Mnemonic(Mnemonic::Branch(BranchOpcode::Bcs)));
    }
    let lit: [u8; 4] = [98u8, 104u8, 105u8, 115u8];
    proof {
        assert(lit@ == seq![98u8, 104u8, 105u8, 115u8]);
    }
    if eq_lit(s, start, end, lit.as_slice()) {
        return Some(Token::Mnemonic(Mnemonic::Branch(BranchOpcode::Bcc)));
    }
    let lit: [u8; 3] = [98u8, 108u8, 111u8];
    proof {
        assert(lit@ == seq![98u8, 108u8, 111u8]);
    }
    if eq_lit(s, start, end, lit.as_slice()) {
        return Some(Token::Mnemonic(Mnemonic::Branch(BranchOpcode::Bcs)));
    }
    let lit: [u8; 3] = [106u8, 109u8, 112u8];
    proof {
        assert(lit@ == seq![106u8, 109u8, 112u8]);
    }
    if eq_lit(s, start, end, lit.as_slice()) {
        return Some(Token::Mnemonic(Mnemonic::Jmp(JmpOpcode::Jmp)));
    }
    let lit: [u8; 3] = [106u8, 115u8, 114u8];
    proof {
        assert(lit@ == seq![106u8, 115u8, 114u8]);
    }
    if eq_lit(s, start, end, lit.as_slice()) {
        return Some(Token::Mnemonic(Mnemonic::Jsr(JsrOpcode::Jsr)));
    }
    let lit: [u8; 3] = [114u8, 116u8, 115u8];
    proof {
        assert(lit@ == seq![114u8, 116u8, 115u8]);
    }
    if eq_lit(s, start, end, lit.as_slice()) {
        return Some(Token::Mnemonic(Mnemonic::Rts(RtsOpcode::Rts)));
    }
    let lit: [u8; 4] = [115u8, 119u8, 97u8, 98u8];
    proof {
        assert(lit@ == seq![115u8, 119u8, 97u8, 98u8]);
    }
    if eq_lit(s, start, end, lit.as_slice()) {
        return Some(Token::Mnemonic(Mnemonic::Single(SingleOperandOpcode::Swab)));
    }
    let lit: [u8; 3] = [99u8, 108u8, 114u8];
    proof {
        assert(lit@ == seq![99u8, 108u8, 114u8]);
    }
    if eq_lit(s, start, end, lit.as_slice()) {
        return Some(Token::Mnemonic(Mnemonic::Single(SingleOperandOpcode::Clr)));
    }
    let lit: [u8; 3] = [99u8, 111u8, 109u8];
    proof {
        assert(lit@ == seq![99u8, 111u8, 109u8]);
    }
    if eq_lit(s, start, end, lit.as_slice()) {
        return Some(Token::Mnemonic(Mnemonic::Single(SingleOperandOpcode::Com)));
    }
    let lit: [u8; 3] = [105u8, 110u8, 99u8];
    proof {
        assert(lit@ == seq![105u8, 110u8, 99u8]);
    }
    if eq_lit(s, start, end, lit.as_slice()) {
        return Some(Token::Mnemonic(Mnemonic::Single(SingleOperandOpcode::Inc)));
    }
    let lit: [u8; 3] = [100u8, 101u8, 99u8];
    proof {
        assert(lit@ == seq![100u8, 101u8, 99u8]);
    }
    if eq_lit(s, start, end, lit.as_slice()) {
        return Some(Token::Mnemonic(Mnemonic::Single(SingleOperandOpcode::Dec)));
    }
    let lit: [u8; 3] = [110u8, 101u8, 103u8];
    proof {
        assert(lit@ == seq![110u8, 101u8, 103u8]);
    }
    if eq_lit(s, start, end, lit.as_slice()) {
        return Some(Token::Mnemonic(Mnemonic::Single(SingleOperandOpcode::Neg)));
    }
    let lit: [u8; 3] = [97u8, 100u8, 99u8];
    proof {
        assert(lit@ == seq![97u8, 100u8, 99u8]);
    }
    if eq_lit(s, start, end, lit.as_slice()) {
        return Some(Token::Mnemonic(Mnemonic::Single(SingleOperandOpcode::Adc)));
    }
    let lit: [u8; 3] = [115u8, 98u8, 99u8];
    proof {
        assert(lit@ == seq![115u8, 98u8, 99u8]);
    }
    if eq_lit(s, start, end, lit.as_slice()) {
        return Some(Token::Mnemonic(Mnemonic::Single(SingleOperandOpcode::Sbc)));
    }
    let lit: [u8; 3] = [116u8, 115u8, 116u8];
    proof {
        assert(lit@ == seq![116u8, 115u8, 116u8]);
    }
    if eq_lit(s, start, end, lit.as_slice()) {
        return Some(Token::Mnemonic(Mnemonic::Single(SingleOperandOpcode::Tst)));
    }
    let lit: [u8; 3] = [114u8, 111u8, 114u8];
    proof {
        assert(lit@ == seq![114u8, 111u8, 114u8]);
    }
    if eq_lit(s, start, end, lit.as_slice()) {
        return Some(Token::Mnemonic(Mnemonic::Single(SingleOperandOpcode::Ror)));
    }
    let lit: [u8; 3] = [114u8, 111u8, 108u8];
    proof {
        assert(lit@ == seq![114u8, 111u8, 108u8]);
    }
    if eq_lit(s, start, end, lit.as_slice()) {
        return Some(Token::Mnemonic(Mnemonic::Single(SingleOperandOpcode::Rol)));
    }
    let lit: [u8; 3] = [97u8, 115u8, 114u8];
    proof {
        assert(lit@ == seq![97u8, 115u8, 114u8]);
    }
    if eq_lit(s, start, end, lit.as_slice()) {
        return Some(Token::Mnemonic(Mnemonic::Single(SingleOperandOpcode::Asr)));
    }
    let lit: [u8; 3] = [97u8, 115u8, 108u8];
    proof {
        assert(lit@ == seq![97u8, 115u8, 108u8]);
    }
    if eq_lit(s, start, end, lit.as_slice()) {
        return Some(Token::Mnemonic(Mnemonic::Single(SingleOperandOpcode::Asl)));
    }
    let lit: [u8; 4] = [99u8, 108u8, 114u8, 98u8];
    proof {
        assert(lit@ == seq![99u8, 108u8, 114u8, 98u8]);
    }
    if eq_lit(s, start, end, lit.as_slice()) {
        return Some(Token::Mnemonic(Mnemonic::Single(SingleOperandOpcode::ClrB)));
    }
    let lit: [u8; 4] = [99u8, 111u8, 109u8, 98u8];
    proof {
        assert(lit@ == seq![99u8, 111u8, 109u8, 98u8]);
    }
    if eq_lit(s, start, end, lit.as_slice()) {
        return Some(Token::Mnemonic(Mnemonic::Single(SingleOperandOpcode::ComB)));
    }
    let lit: [u8; 4] = [105u8, 110u8, 99u8, 98u8];
    proof {
        assert(lit@ == seq![105u8, 110u8, 99u8, 98u8]);
    }
    if eq_lit(s, start, end, lit.as_slice()) {
        return Some(Token::Mnemonic(Mnemonic::Single(SingleOperandOpcode::IncB)));
    }
    let lit: [u8; 4] = [100u8, 101u8, 99u8, 98u8];
    proof {
        assert(lit@ == seq![100u8, 101u8, 99u8, 98u8]);
    }
    if eq_lit(s, start, end, lit.as_slice()) {
        return Some(Token::Mnemonic(Mnemonic::Single(SingleOperandOpcode::DecB)));
    }
    let lit: [u8; 4] = [110u8, 101u8, 103u8, 98u8];
    proof {
        assert(lit@ == seq![110u8, 101u8, 103u8, 98u8]);
    }
    if eq_lit(s, start, end, lit.as_slice()) {
        return Some(Token::Mnemonic(Mnemonic::Single(SingleOperandOpcode::NegB)));
    }
    let lit: [u8; 4] = [97u8, 100u8, 99u8, 98u8];
    proof {
        assert(lit@ == seq![97u8, 100u8, 99u8, 98u8]);
    }
    if eq_lit(s, start, end, lit.as_slice()) {
        return Some(Token::Mnemonic(Mnemonic::Single(SingleOperandOpcode::AdcB)));
    }
    let lit: [u8; 4] = [115u8, 98u8, 99u8, 98u8];
    proof {
        assert(lit@ == seq![115u8, 98u8, 99u8, 98u8]);
    }
    if eq_lit(s, start, end, lit.as_slice()) {
        return Some(Token::Mnemonic(Mnemonic::Single(SingleOperandOpcode::SbcB)));
    }
    let lit: [u8; 4] = [116u8, 115u8, 116u8, 98u8];
    proof {
        assert(lit@ == seq![116u8, 115u8, 116u8, 98u8]);
    }
    if eq_lit(s, start, end, lit.as_slice()) {
        return Some(Token::Mnemonic(Mnemonic::Single(SingleOperandOpcode::TstB)));
    }
    let lit: [u8; 4] = [114u8, 111u8, 114u8, 98u8];
    proof {
        assert(lit@ == seq![114u8, 111u8, 114u8, 98u8]);
    }
    if eq_lit(s, start, end, lit.as_slice()) {
        return Some(Token::Mnemonic(Mnemonic::Single(SingleOperandOpcode::RorB)));
    }
    let lit: [u8; 4] = [114u8, 111u8, 108u8, 98u8];
    proof {
        assert(lit@ == seq![114u8, 111u8, 108u8, 98u8]);
    }
    if eq_lit(s, start, end, lit.as_slice()) {
        return Some(Token::Mnemonic(Mnemonic::Single(SingleOperandOpcode::RolB)));
    }
    let lit: [u8; 4] = [97u8, 115u8, 114u8, 98u8];
    proof {
        assert(lit@ == seq![97u8, 115u8, 114u8, 98u8]);
    }
    if eq_lit(s, start, end, lit.as_slice()) {
        return Some(Token::Mnemonic(Mnemonic::Single(SingleOperandOpcode::AsrB)));
    }
    let lit: [u8; 4] = [97u8, 115u8, 108u8, 98u8];
    proof {
        assert(lit@ == seq![97u8, 115u8, 108u8, 98u8]);
    }
    if eq_lit(s, start, end, lit.as_slice()) {
        return Some(Token::Mnemonic(Mnemonic::Single(SingleOperandOpcode::AslB)));
    }
    let lit: [u8; 3] = [109u8, 117u8, 108u8];
    proof {
        assert(lit@ == seq![109u8, 117u8, 108u8]);
    }
    if eq_lit(s, start, end, lit.as_slice()) {
        return Some(Token::Mnemonic(Mnemonic::Eis(EisOpcode::Mul)));
    }
    let lit: [u8; 3] = [100u8, 105u8, 118u8];
    proof {
        assert(lit@ == seq![100u8, 105u8, 118u8]);
    }
    if eq_lit(s, start, end, lit.as_slice()) {
        return Some(Token::Mnemonic(Mnemonic::Eis(EisOpcode::Div)));
    }
    let lit: [u8; 3] = [97u8, 115u8, 104u8];
    proof {
        assert(lit@ == seq![97u8, 115u8, 104u8]);
    }
    if eq_lit(s, start, end, lit.as_slice()) {
        return Some(Token::Mnemonic(Mnemonic::Eis(EisOpcode::Ash)));
    }
    let lit: [u8; 4] = [97u8, 115u8, 104u8, 99u8];
    proof {
        assert(lit@ == seq![97u8, 115u8, 104u8, 99u8]);
    }
    if eq_lit(s, start, end, lit.as_slice()) {
        return Some(Token::Mnemonic(Mnemonic::Eis(EisOpcode::Ashc)));
    }
    let lit: [u8; 3] = [120u8, 111u8, 114u8];
    proof {
        assert(lit@ == seq![120u8, 111u8, 114u8]);
    }
    if eq_lit(s, start, end, lit.as_slice()) {
        return Some(Token::Mnemonic(Mnemonic::Eis(EisOpcode::Xor)));
    }
    let lit: [u8; 3] = [110u8, 111u8, 112u8];
    proof {
        assert(lit@ == seq![110u8, 111u8, 112u8]);
    }
    if eq_lit(s, start, end, lit.as_slice()) {
        return Some(Token::Mnemonic(Mnemonic::CC(CCOpcode::Nop)));
    }
    let lit: [u8; 3] = [99u8, 108u8, 99u8];
    proof {
        assert(lit@ == seq![99u8, 108u8, 99u8]);
    }
    if eq_lit(s, start, end, lit.as_slice()) {
        return Some(Token::Mnemonic(Mnemonic::CC(CCOpcode::Clc)));
    }
    let lit: [u8; 3] = [99u8, 108u8, 118u8];
    proof {
        assert(lit@ == seq![99u8, 108u8, 118u8]);
    }
    if eq_lit(s, start, end, lit.as_slice()) {
        return Some(Token::Mnemonic(Mnemonic::CC(CCOpcode::Clv)));
    }
    let lit: [u8; 3] = [99u8, 108u8, 122u8];
    proof {
        assert(lit@ == seq![99u8, 108u8, 122u8]);
    }
    if eq_lit(s, start, end, lit.as_slice()) {
        return Some(Token::Mnemonic(Mnemonic::CC(CCOpcode::Clz)));
    }
    let lit: [u8; 3] = [99u8, 108u8, 110u8];
    proof {
        assert(lit@ == seq![99u8, 108u8, 110u8]);
    }
    if eq_lit(s, start, end, lit.as_slice()) {
        return Some(Token::Mnemonic(Mnemonic::CC(CCOpcode::Cln)));
    }
    let lit: [u8; 3] = [115u8, 101u8, 99u8];
    proof {
        assert(lit@ == seq![115u8, 101u8, 99u8]);
    }
    if eq_lit(s, start, end, lit.as_slice()) {
        return Some(Token::Mnemonic(Mnemonic::CC(CCOpcode::Sec)));
    }
    let lit: [u8; 3] = [115u8, 101u8, 118u8];
    proof {
        assert(lit@ == seq![115u8, 101u8, 118u8]);
    }
    if eq_lit(s, start, end, lit.as_slice()) {
        return Some(Token::Mnemonic(Mnemonic::CC(CCOpcode::Sev)));
    }
    let lit: [u8; 3] = [115u8, 101u8, 122u8];
    proof {
        assert(lit@ == seq![115u8, 101u8, 122u8]);
    }
    if eq_lit(s, start, end, lit.as_slice()) {
        return Some(Token::Mnemonic(Mnemonic::CC(CCOpcode::Sez)));
    }
    let lit: [u8; 3] = [115u8, 101u8, 110u8];
    proof {
        assert(lit@ == seq![115u8, 101u8, 110u8]);
    }
    if eq_lit(s, start, end, lit.as_slice()) {
        return Some(Token::Mnemonic(Mnemonic::CC(CCOpcode::Sen)));
    }
    let lit: [u8; 4] = [104u8, 97u8, 108u8, 116u8];
    proof {
        assert(lit@ == seq![104u8, 97u8, 108u8, 116u8]);
    }
    if eq_lit(s, start, end, lit.as_slice()) {
        return Some(Token::Mnemonic(Mnemonic::Misc(MiscOpcode::Halt)));
    }
    let lit: [u8; 4] = [119u8, 97u8, 105u8, 116u8];
    proof {
        assert(lit@ == seq![119u8, 97u8, 105u8, 116u8]);
    }
    if eq_lit(s, start, end, lit.as_slice()) {
        return Some(Token::Mnemonic(Mnemonic::Misc(MiscOpcode::Wait)));
    }
    let lit: [u8; 3] = [114u8, 116u8, 105u8];
    proof {
        assert(lit@ == seq![114u8, 116u8, 105u8]);
    }
    if eq_lit(s, start, end, lit.as_slice()) {
        return Some(Token::Mnemonic(Mnemonic::Misc(MiscOpcode::Rti)));
    }
    let lit: [u8; 3] = [105u8, 111u8, 120u8];
    proof {
        assert(lit@ == seq![105u8, 111u8, 120u8]);
    }
    if eq_lit(s, start, end, lit.as_slice()) {
        return Some(Token::Mnemonic(Mnemonic::Misc(MiscOpcode::Iox)));
    }
    let lit: [u8; 3] = [105u8, 111u8, 116u8];
    proof {
        assert(lit@ == seq![105u8, 111u8, 116u8]);
    }
    if eq_lit(s, start, end, lit.as_slice()) {
        return Some(Token::Mnemonic(Mnemonic::Misc(MiscOpcode::Iot)));
    }
    let lit: [u8; 5] = [114u8, 101u8, 115u8, 101u8, 116u8];
    proof {
        assert(lit@ == seq![114u8, 101u8, 115u8, 101u8, 116u8]);
    }
    if eq_lit(s, start, end, lit.as_slice()) {
        return Some(Token::Mnemonic(Mnemonic::Misc(MiscOpcode::Reset)));
    }
    let lit: [u8; 3] = [101u8, 109u8, 116u8];
    proof {
        assert(lit@ == seq![101u8, 109u8, 116u8]);
    }
    if eq_lit(s, start, end, lit.as_slice()) {
        return Some(Token::Mnemonic(Mnemonic::Trap(TrapOpcode::Emt)));
    }
    let lit: [u8; 4] = [116u8, 114u8, 97u8, 112u8];
    proof {
        assert(lit@ == seq![116u8, 114u8, 97u8, 112u8]);
    }
    if eq_lit(s, start, end, lit.as_slice()) {
        return Some(Token::Mnemonic(Mnemonic::Trap(TrapOpcode::Trap)));
    }
    let lit: [u8; 2] = [114u8, 48u8];
    proof {
        assert(lit@ == seq![114u8, 48u8]);
    }
    if eq_lit(s, start, end, lit.as_slice()) {
        return Some(Token::Register(Reg::R0));
    }
    let lit: [u8; 2] = [114u8, 49u8];
    proof {
        assert(lit@ == seq![114u8, 49u8]);
    }
    if eq_lit(s, start, end, lit.as_slice()) {
        return Some(Token::Register(Reg::R1));
    }
    let lit: [u8; 2] = [114u8, 50u8];
    proof {
        assert(lit@ == seq![114u8, 50u8]);
    }
    if eq_lit(s, start, end, lit.as_slice()) {
        return Some(Token::Register(Reg::R2));
    }
    let lit: [u8; 2] = [114u8, 51u8];
    proof {
        assert(lit@ == seq![114u8, 51u8]);
    }
    if eq_lit(s, start, end, lit.as_slice()) {
        return Some(Token::Register(Reg::R3));
    }
    let lit: [u8; 2] = [114u8, 52u8];
    proof {
        assert(lit@ == seq![114u8, 52u8]);
    }
    if eq_lit(s, start, end, lit.as_slice()) {
        return Some(Token::Register(Reg::R4));
    }
    let lit: [u8; 2] = [114u8, 53u8];
    proof {
        assert(lit@ == seq![114u8, 53u8]);
    }
    if eq_lit(s, start, end, lit.as_slice()) {
        return Some(Token::Register(Reg::R5));
    }
    let lit: [u8; 2] = [114u8, 54u8];
    proof {
        assert(lit@ == seq![114u8, 54u8]);
    }
    if eq_lit(s, start, end, lit.as_slice()) {
        return Some(Token::Register(Reg::SP));
    }
    let lit: [u8; 2] = [114u8, 55u8];
    proof {
        assert(lit@ == seq![114u8, 55u8]);
    }
    if eq_lit(s, start, end, lit.as_slice()) {
        return Some(Token::Register(Reg::PC));
    }
    let lit: [u8; 2] = [115u8, 112u8];
    proof {
        assert(lit@ == seq![115u8, 112u8]);
    }
    if eq_lit(s, start, end, lit.as_slice()) {
        return Some(Token::Register(Reg::SP));
    }
    let lit: [u8; 2] = [112u8, 99u8];
    proof {
        assert(lit@ == seq![112u8, 99u8]);
    }
    if eq_lit(s, start, end, lit.as_slice()) {
        return Some(Token::Register(Reg::PC));
    }
    None
}

/// Looks a name up among the directives.
fn directive(s: &[u8], start: usize, end: usize) -> (r: Option<Token>)
    requires
        start <= end <= s@.len(),
    ensures
        r == spec_directive(s@.subrange(start as int, end as int)),
{
    let lit: [u8; 4] = [119u8, 111u8, 114u8, 100u8];
    proof {
        assert(lit@ == seq![119u8, 111u8, 114u8, 100u8]);
    }
    if eq_lit(s, start, end, lit.as_slice()) {
        return Some(Token::Word);
    }
    let lit: [u8; 4] = [98u8, 121u8, 116u8, 101u8];
    proof {
        assert(lit@ == seq![98u8, 121u8, 116u8, 101u8]);
    }
    if eq_lit(s, start, end, lit.as_slice()) {
        return Some(Token::Byte);
    }
    let lit: [u8; 4] = [101u8, 118u8, 101u8, 110u8];
    proof {
        assert(lit@ == seq![101u8, 118u8, 101u8, 110u8]);
    }
    if eq_lit(s, start, end, lit.as_slice()) {
        return Some(Token::Even);
    }
    let lit: [u8; 5] = [97u8, 115u8, 99u8, 105u8, 105u8];
    proof {
        assert(lit@ == seq![97u8, 115u8, 99u8, 105u8, 105u8]);
    }
    if eq_lit(s, start, end, lit.as_slice()) {
        return Some(Token::Ascii);
    }
    let lit: [u8; 5] = [97u8, 115u8, 99u8, 105u8, 122u8];
    proof {
        assert(lit@ == seq![97u8, 115u8, 99u8, 105u8, 122u8]);
    }
    if eq_lit(s, start, end, lit.as_slice()) {
        return Some(Token::Asciz);
    }
    None
}

/// The class of characters numbered `class`: 0 digits, 1 name
/// characters, 2 comment characters, 3 string characters.
pub open spec fn class_pred(class: u8) -> spec_fn(u8) -> bool {
    if class == 0 {
        digit_pred()
    } else if class == 1 {
        name_pred()
    } else if class == 2 {
        comment_pred()
    } else {
        string_pred()
    }
}

fn in_class(c: u8, class: u8) -> (r: bool)
    requires
        class < 4,
    ensures
        r == class_pred(class)(c),
{
    if class == 0 {
        48 <= c && c <= 57
    } else if class == 1 {
        (97 <= c && c <= 122) || (65 <= c && c <= 90) || c == 95 || (48 <= c && c <= 57)
    } else if class == 2 {
        c != 10
    } else {
        c != 34 && c != 10
    }
}

/// The end of the run of characters of a class from `i` on.
fn class_end(s: &[u8], i: usize, class: u8) -> (e: usize)
    requires
        i <= s@.len(),
        class < 4,
    ensures
        e == run_end(s@, i as int, class_pred(class)),
{
    let mut k = i;
    while k < s.len()
        invariant
            i <= k <= s@.len(),
            class < 4,
            run_end(s@, i as int, class_pred(class)) == run_end(s@, k as int, class_pred(class)),
        decreases s@.len() - k,
    {
        if !in_class(s[k], class) {
            return k;
        }
        k = k + 1;
    }
    k
}

proof fn lemma_digits_value_monotone(s: Seq<u8>, start: int, k: int, end: int, base: int)
    requires
        0 <= start <= k <= end <= s.len(),
        base >= 1,
        forall|j: int| start <= j < end ==> is_digit(#[trigger] s[j]),
    ensures
        digits_value(s.subrange(start, k), base) <= digits_value(s.subrange(start, end), base),
        digits_value(s.subrange(start, k), base) >= 0,
    decreases end - k,
{
    assert forall|j: int| 0 <= j < s.subrange(start, k).len() implies is_digit(#[trigger] s.subrange(start, k)[j]) by {
        assert(s.subrange(start, k)[j] == s[start + j]);
    }
    lemma_digits_value_nonneg(s.subrange(start, k), base);
    if k < end {
        lemma_digits_value_monotone(s, start, k + 1, end, base);
        assert(s.subrange(start, k + 1).drop_last() =~= s.subrange(start, k));
        assert(s.subrange(start, k + 1).last() == s[k]);
        let a = digits_value(s.subrange(start, k), base);
        assert(a * base >= a) by (nonlinear_arith)
            requires
                a >= 0,
                base >= 1,
        ;
    }
}

proof fn lemma_digits_value_nonneg(d: Seq<u8>, base: int)
    requires
        base >= 1,
        forall|j: int| 0 <= j < d.len() ==> is_digit(#[trigger] d[j]),
    ensures
        digits_value(d, base) >= 0,
    decreases d.len(),
{
    if d.len() > 0 {
        lemma_digits_value_nonneg(d.drop_last(), base);
        let a = digits_value(d.drop_last(), base);
        assert(a * base >= 0) by (nonlinear_arith)
            requires
                a >= 0,
                base >= 1,
        ;
    }
}

/// The value of the digits `start..end` in base 8 or 10, if it fits in a
/// word.
fn digits_val(s: &[u8], start: usize, end: usize, base: u32) -> (r: Option<u16>)
    requires
        start <= end <= s@.len(),
        base == 8 || base == 10,
        forall|j: int| start <= j < end ==> is_digit(#[trigger] s@[j]),
    ensures
        r == (if digits_value(s@.subrange(start as int, end as int), base as int) < 65536 {
            Some(digits_value(s@.subrange(start as int, end as int), base as int) as u16)
        } else {
            None
        }),
{
    let mut v: u32 = 0;
    let mut k = start;
    proof {
        assert(s@.subrange(start as int, start as int) =~= Seq::<u8>::empty());
    }
    while k < end
        invariant
            start <= k <= end <= s@.len(),
            base == 8 || base == 10,
            forall|j: int| start <= j < end ==> is_digit(#[trigger] s@[j]),
            v == digits_value(s@.subrange(start as int, k as int), base as int),
            v < 65536,
        decreases end - k,
    {
        let d = (s[k] - 48) as u32;
        proof {
            assert(s@.subrange(start as int, k + 1).drop_last() =~= s@.subrange(start as int, k as int));
            assert(s@.subrange(start as int, k + 1).last() == s@[k as int]);
        }
        assert(v * base <= 655350) by (nonlinear_arith)
            requires
                v < 65536,
                base <= 10,
        ;
        v = v * base + d;
        k = k + 1;
        if v >= 65536 {
            proof {
                lemma_digits_value_monotone(s@, start as int, k as int, end as int, base as int);
            }
            return None;
        }
    }
    Some(v as u16)
}

/// Whether the digits `start..end` are all octal.
fn octal_digits(s: &[u8], start: usize, end: usize) -> (r: bool)
    requires
        start <= end <= s@.len(),
    ensures
        r == all_octal(s@.subrange(start as int, end as int)),
{
    let mut k = start;
    while k < end
        invariant
            start <= k <= end <= s@.len(),
            forall|j: int| start <= j < k ==> s@[j] < 56,
        decreases end - k,
    {
        if s[k] >= 56 {
            assert(s@.subrange(start as int, end as int)[k - start] == s@[k as int]);
            return false;
        }
        k = k + 1;
    }
    assert forall|j: int| 0 <= j < s@.subrange(start as int, end as int).len() implies s@.subrange(start as int, end as int)[j] < 56 by {
        assert(s@.subrange(start as int, end as int)[j] == s@[start + j]);
    }
    true
}

/// Scans a number starting at a digit; see [`scan_number`].
fn scan_number_at(s: &[u8], i: usize) -> (r: Option<(Token, usize)>)
    requires
        i < s@.len(),
        is_digit(s@[i as int]),
    ensures
        scan_number(s@, i as int) == (match r {
            Some((t, j)) => Some((t, j as int)),
            None => None,
        }),
        r matches Some((_, j)) ==> i < j <= s@.len(),
{
    let e = class_end(s, i, 0);
    proof {
        assert(class_pred(0) == digit_pred());
        lemma_run_end(s@, i as int, digit_pred());
    }
    let dec = digits_val(s, i, e, 10);
    if e < s.len() && s[e] == 46 {
        return match dec {
            Some(v) => Some((Token::Num(v), e + 1)),
            None => None,
        };
    }
    if e < s.len() && (s[e] == 98 || s[e] == 102) && !(e + 1 < s.len() && {
        let c = s[e + 1];
        (97 <= c && c <= 122) || (65 <= c && c <= 90) || c == 95 || (48 <= c && c <= 57)
    }) {
        return match dec {
            Some(v) => Some((Token::TmpRef(v, s[e] == 102), e + 1)),
            None => None,
        };
    }
    if e < s.len() && s[e] == 58 {
        return match dec {
            Some(v) => Some((Token::TmpLabel(v), e + 1)),
            None => None,
        };
    }
    if !octal_digits(s, i, e) {
        return None;
    }
    match digits_val(s, i, e, 8) {
        Some(v) => Some((Token::Num(v), e)),
        None => None,
    }
}


fn is_letter_exec(c: u8) -> (r: bool)
    ensures
        r == is_letter(c),
{
    (97 <= c && c <= 122) || (65 <= c && c <= 90) || c == 95
}

fn punct_of(c: u8) -> (r: Option<Token>)
    ensures
        r == punct(c),
{
    if c == 44 {
        Some(Token::Comma)
    } else if c == 58 {
        Some(Token::Colon)
    } else if c == 61 {
        Some(Token::Eq)
    } else if c == 40 {
        Some(Token::LParen)
    } else if c == 41 {
        Some(Token::RParen)
    } else if c == 43 {
        Some(Token::Plus)
    } else if c == 45 {
        Some(Token::Minus)
    } else if c == 38 {
        Some(Token::Amp)
    } else if c == 33 {
        Some(Token::Bang)
    } else if c == 35 {
        Some(Token::Hash)
    } else if c == 64 {
        Some(Token::At)
    } else if c == 10 {
        Some(Token::Newline)
    } else {
        None
    }
}

/// Scans the token starting at `i`; see [`scan`].
fn scan_at(s: &[u8], i: usize) -> (r: Option<(Token, usize)>)
    requires
        i < s@.len(),
    ensures
        scan(s@, i as int) == (match r {
            Some((t, j)) => Some((t, j as int)),
            None => None,
        }),
        r matches Some((_, j)) ==> i < j <= s@.len(),
{
    let c = s[i];
    if is_letter_exec(c) {
        let e = class_end(s, i, 1);
        proof {
            assert(class_pred(1) == name_pred());
            lemma_run_end(s@, i as int, name_pred());
        }
        match keyword(s, i, e) {
            Some(t) => Some((t, e)),
            None => Some((Token::Name(i, e), e)),
        }
    } else if c == 46 {
        if i + 1 < s.len() && is_letter_exec(s[i + 1]) {
            let e = class_end(s, i + 1, 1);
            proof {
                assert(class_pred(1) == name_pred());
                lemma_run_end(s@, i + 1, name_pred());
            }
            match directive(s, i + 1, e) {
                Some(t) => Some((t, e)),
                None => None,
            }
        } else {
            Some((Token::Dot, i + 1))
        }
    } else if 48 <= c && c <= 57 {
        scan_number_at(s, i)
    } else if c == 39 {
        if i + 1 < s.len() {
            Some((Token::Char(s[i + 1]), i + 2))
        } else {
            None
        }
    } else if c == 34 {
        let e = class_end(s, i + 1, 3);
        proof {
            assert(class_pred(3) == string_pred());
            lemma_run_end(s@, i + 1, string_pred());
        }
        if e < s.len() && s[e] == 34 {
            Some((Token::Str(i + 1, e), e + 1))
        } else {
            None
        }
    } else {
        match punct_of(c) {
            Some(t) => Some((t, i + 1)),
            None => None,
        }
    }
}

/// Splits source text into tokens; see [`lex_from`]. On failure, the
/// position where no token can start.
pub fn lex(s: &[u8]) -> (r: Result<Vec<Token>, usize>)
    ensures
        r matches Ok(v) ==> lex_from(s@, 0) == Ok::<Seq<Token>, usize>(v@),
        r matches Err(p) ==> lex_from(s@, 0) == Err::<Seq<Token>, usize>(p),
{
    let mut toks: Vec<Token> = Vec::new();
    let mut i: usize = 0;
    proof {
        assert(prepend(toks@, lex_from(s@, 0)) == lex_from(s@, 0)) by {
            match lex_from(s@, 0) {
                Ok(q) => {
                    assert(toks@ + q =~= q);
                },
                Err(_) => {},
            }
        }
    }
    while i < s.len()
        invariant
            i <= s@.len(),
            lex_from(s@, 0) == prepend(toks@, lex_from(s@, i as int)),
        decreases s@.len() - i,
    {
        let c = s[i];
        if c == 32 || c == 9 || c == 13 {
            i = i + 1;
        } else if c == 59 {
            let e = class_end(s, i + 1, 2);
            proof {
                assert(class_pred(2) == comment_pred());
                lemma_run_end(s@, i + 1, comment_pred());
            }
            i = e;
        } else {
            match scan_at(s, i) {
                Some((t, j)) => {
                    proof {
                        let rest = lex_from(s@, j as int);
                        assert(lex_from(s@, i as int) == prepend(seq![t], rest));
                        match rest {
                            Ok(q) => {
                                assert(toks@ + (seq![t] + q) =~= toks@.push(t) + q);
                            },
                            Err(_) => {},
                        }
                    }
                    toks.push(t);
                    i = j;
                },
                None => {
                    return Err(i);
                },
            }
        }
    }
    proof {
        assert(toks@ + Seq::<Token>::empty() =~= toks@);
    }
    Ok(toks)
}

} // verus!
