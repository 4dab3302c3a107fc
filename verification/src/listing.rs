//! Instructions and disassemblies as text, in the syntax the assembler
//! reads, with numbers in octal.
use vstd::prelude::*;
use crate::assembler::lexer::{all_octal, digits_value, is_digit, is_letter, is_name_char, lex_from, name_pred, prepend, run_end, scan, spec_keyword, Mnemonic, Token};
use crate::assembler::parser::{p_deferred, p_ins, p_operand, p_paren_reg};
use crate::isa::{spec_needs_extra, Extra};
use crate::disassembler::Disassembled;
use crate::emulator::emulator::{branch_disp, branch_taken, reg_of, spec_exec_branch};
use crate::emulator::emulator_state::Machine;
use crate::isa::{
    AddrMode, BranchIns, BranchOpcode, CCIns, CCOpcode, DoubleOperandIns, DoubleOperandOpcode,
    EisIns, EisOpcode, Ins, JmpIns, JmpOpcode, JsrIns, JsrOpcode, MiscIns, MiscOpcode, Operand,
    Reg, RtsIns, RtsOpcode, SingleOperandIns, SingleOperandOpcode, Target, TrapIns, TrapOpcode,
};

verus! {

/// The octal digits of `v`, without leading zeros.
pub open spec fn oct_digits(v: nat) -> Seq<u8>
    decreases v,
{
    if v < 8 {
        seq![(48 + v) as u8]
    } else {
        oct_digits(v / 8).push((48 + v % 8) as u8)
    }
}

/// The decimal digits of `v`, without leading zeros.
pub open spec fn dec_digits(v: nat) -> Seq<u8>
    decreases v,
{
    if v < 10 {
        seq![(48 + v) as u8]
    } else {
        dec_digits(v / 10).push((48 + v % 10) as u8)
    }
}

/// `v` in octal with the prefix `0o`.
pub open spec fn oct_text(v: u16) -> Seq<u8> {
    seq![48u8, 111u8] + oct_digits(v as nat)
}

/// The last `n` octal digits of `v`, with leading zeros.
pub open spec fn oct_fixed(v: nat, n: nat) -> Seq<u8>
    decreases n,
{
    if n == 0 {
        seq![]
    } else {
        oct_fixed(v / 8, (n - 1) as nat).push((48 + v % 8) as u8)
    }
}

/// A word in octal with the prefix `0o` and all six digits.
pub open spec fn oct_word_text(v: u16) -> Seq<u8> {
    seq![48u8, 111u8] + oct_fixed(v as nat, 6)
}

/// Appends `b` to `out`.
fn push_bytes(out: &mut Vec<u8>, b: &[u8])
    ensures
        final(out)@ == old(out)@ + b@,
{
    let mut i: usize = 0;
    while i < b.len()
        invariant
            i <= b@.len(),
            out@ == old(out)@ + b@.subrange(0, i as int),
        decreases b@.len() - i,
    {
        out.push(b[i]);
        proof {
            assert(out@ =~= old(out)@ + b@.subrange(0, i + 1));
        }
        i = i + 1;
    }
    assert(b@.subrange(0, b@.len() as int) =~= b@);
}

fn push_oct_digits(out: &mut Vec<u8>, v: u16)
    ensures
        final(out)@ == old(out)@ + oct_digits(v as nat),
    decreases v,
{
    if v >= 8 {
        push_oct_digits(out, v / 8);
    }
    out.push(48 + (v % 8) as u8);
    proof {
        if v < 8 {
            assert(oct_digits(v as nat) == seq![(48 + v) as u8]);
        }
        assert(out@ =~= old(out)@ + oct_digits(v as nat));
    }
}

fn push_dec_digits(out: &mut Vec<u8>, v: u16)
    ensures
        final(out)@ == old(out)@ + dec_digits(v as nat),
    decreases v,
{
    if v >= 10 {
        push_dec_digits(out, v / 10);
    }
    out.push(48 + (v % 10) as u8);
    proof {
        if v < 10 {
            assert(dec_digits(v as nat) == seq![(48 + v) as u8]);
        }
        assert(out@ =~= old(out)@ + dec_digits(v as nat));
    }
}

/// Appends `v` in octal with the prefix `0o`.
pub fn push_oct(out: &mut Vec<u8>, v: u16)
    ensures
        final(out)@ == old(out)@ + oct_text(v),
{
    out.push(48);
    out.push(111);
    push_oct_digits(out, v);
    assert(final(out)@ =~= old(out)@ + oct_text(v));
}

fn push_oct_fixed(out: &mut Vec<u8>, v: u16, n: u8)
    ensures
        final(out)@ == old(out)@ + oct_fixed(v as nat, n as nat),
    decreases n,
{
    if n > 0 {
        push_oct_fixed(out, v / 8, n - 1);
        out.push(48 + (v % 8) as u8);
        assert(out@ =~= old(out)@ + oct_fixed(v as nat, n as nat));
    } else {
        assert(out@ =~= old(out)@ + oct_fixed(v as nat, n as nat));
    }
}

/// Appends a word in octal with the prefix `0o` and all six digits.
pub fn push_oct_word(out: &mut Vec<u8>, v: u16)
    ensures
        final(out)@ == old(out)@ + oct_word_text(v),
{
    out.push(48);
    out.push(111);
    push_oct_fixed(out, v, 6);
    assert(final(out)@ =~= old(out)@ + oct_word_text(v));
}

/// The name of a register: `r0` to `r5`, `sp`, `pc`.
pub open spec fn reg_text(r: Reg) -> Seq<u8> {
    match r {
        Reg::R0 => seq![114u8, 48u8],
        Reg::R1 => seq![114u8, 49u8],
        Reg::R2 => seq![114u8, 50u8],
        Reg::R3 => seq![114u8, 51u8],
        Reg::R4 => seq![114u8, 52u8],
        Reg::R5 => seq![114u8, 53u8],
        Reg::SP => seq![115u8, 112u8],
        Reg::PC => seq![112u8, 99u8],
    }
}

/// Appends the name of a register.
pub fn push_reg(out: &mut Vec<u8>, r: Reg)
    ensures
        final(out)@ == old(out)@ + reg_text(r),
{
    match r {
        Reg::R0 => push_bytes(out, &[114u8, 48u8]),
        Reg::R1 => push_bytes(out, &[114u8, 49u8]),
        Reg::R2 => push_bytes(out, &[114u8, 50u8]),
        Reg::R3 => push_bytes(out, &[114u8, 51u8]),
        Reg::R4 => push_bytes(out, &[114u8, 52u8]),
        Reg::R5 => push_bytes(out, &[114u8, 53u8]),
        Reg::SP => push_bytes(out, &[115u8, 112u8]),
        Reg::PC => push_bytes(out, &[112u8, 99u8]),
    }
}

/// The lower-case name of an instruction.
pub open spec fn mnemonic_text(m: Mnemonic) -> Seq<u8> {
    match m {
        Mnemonic::Double(DoubleOperandOpcode::Mov) => seq![109u8, 111u8, 118u8],
        Mnemonic::Double(DoubleOperandOpcode::Cmp) => seq![99u8, 109u8, 112u8],
        Mnemonic::Double(DoubleOperandOpcode::Bit) => seq![98u8, 105u8, 116u8],
        Mnemonic::Double(DoubleOperandOpcode::Bic) => seq![98u8, 105u8, 99u8],
        Mnemonic::Double(DoubleOperandOpcode::Bis) => seq![98u8, 105u8, 115u8],
        Mnemonic::Double(DoubleOperandOpcode::Add) => seq![97u8, 100u8, 100u8],
        Mnemonic::Double(DoubleOperandOpcode::MovB) => seq![109u8, 111u8, 118u8, 98u8],
        Mnemonic::Double(DoubleOperandOpcode::CmpB) => seq![99u8, 109u8, 112u8, 98u8],
        Mnemonic::Double(DoubleOperandOpcode::BitB) => seq![98u8, 105u8, 116u8, 98u8],
        Mnemonic::Double(DoubleOperandOpcode::BicB) => seq![98u8, 105u8, 99u8, 98u8],
        Mnemonic::Double(DoubleOperandOpcode::BisB) => seq![98u8, 105u8, 115u8, 98u8],
        Mnemonic::Double(DoubleOperandOpcode::Sub) => seq![115u8, 117u8, 98u8],
        Mnemonic::Branch(BranchOpcode::Br) => seq![98u8, 114u8],
        Mnemonic::Branch(BranchOpcode::Bne) => seq![98u8, 110u8, 101u8],
        Mnemonic::Branch(BranchOpcode::Beq) => seq![98u8, 101u8, 113u8],
        Mnemonic::Branch(BranchOpcode::Bge) => seq![98u8, 103u8, 101u8],
        Mnemonic::Branch(BranchOpcode::Blt) => seq![98u8, 108u8, 116u8],
        Mnemonic::Branch(BranchOpcode::Bgt) => seq![98u8, 103u8, 116u8],
        Mnemonic::Branch(BranchOpcode::Ble) => seq![98u8, 108u8, 101u8],
        Mnemonic::Branch(BranchOpcode::Bpl) => seq![98u8, 112u8, 108u8],
        Mnemonic::Branch(BranchOpcode::Bmi) => seq![98u8, 109u8, 105u8],
        Mnemonic::Branch(BranchOpcode::Bhi) => seq![98u8, 104u8, 105u8],
        Mnemonic::Branch(BranchOpcode::Blos) => seq![98u8, 108u8, 111u8, 115u8],
        Mnemonic::Branch(BranchOpcode::Bvc) => seq![98u8, 118u8, 99u8],
        Mnemonic::Branch(BranchOpcode::Bvs) => seq![98u8, 118u8, 115u8],
        Mnemonic::Branch(BranchOpcode::Bcc) => seq![98u8, 99u8, 99u8],
        Mnemonic::Branch(BranchOpcode::Bcs) => seq![98u8, 99u8, 115u8],
        Mnemonic::Jmp(JmpOpcode::Jmp) => seq![106u8, 109u8, 112u8],
        Mnemonic::Jsr(JsrOpcode::Jsr) => seq![106u8, 115u8, 114u8],
        Mnemonic::Rts(RtsOpcode::Rts) => seq![114u8, 116u8, 115u8],
        Mnemonic::Single(SingleOperandOpcode::Swab) => seq![115u8, 119u8, 97u8, 98u8],
        Mnemonic::Single(SingleOperandOpcode::Clr) => seq![99u8, 108u8, 114u8],
        Mnemonic::Single(SingleOperandOpcode::Com) => seq![99u8, 111u8, 109u8],
        Mnemonic::Single(SingleOperandOpcode::Inc) => seq![105u8, 110u8, 99u8],
        Mnemonic::Single(SingleOperandOpcode::Dec) => seq![100u8, 101u8, 99u8],
        Mnemonic::Single(SingleOperandOpcode::Neg) => seq![110u8, 101u8, 103u8],
        Mnemonic::Single(SingleOperandOpcode::Adc) => seq![97u8, 100u8, 99u8],
        Mnemonic::Single(SingleOperandOpcode::Sbc) => seq![115u8, 98u8, 99u8],
        Mnemonic::Single(SingleOperandOpcode::Tst) => seq![116u8, 115u8, 116u8],
        Mnemonic::Single(SingleOperandOpcode::Ror) => seq![114u8, 111u8, 114u8],
        Mnemonic::Single(SingleOperandOpcode::Rol) => seq![114u8, 111u8, 108u8],
        Mnemonic::Single(SingleOperandOpcode::Asr) => seq![97u8, 115u8, 114u8],
        Mnemonic::Single(SingleOperandOpcode::Asl) => seq![97u8, 115u8, 108u8],
        Mnemonic::Single(SingleOperandOpcode::ClrB) => seq![99u8, 108u8, 114u8, 98u8],
        Mnemonic::Single(SingleOperandOpcode::ComB) => seq![99u8, 111u8, 109u8, 98u8],
        Mnemonic::Single(SingleOperandOpcode::IncB) => seq![105u8, 110u8, 99u8, 98u8],
        Mnemonic::Single(SingleOperandOpcode::DecB) => seq![100u8, 101u8, 99u8, 98u8],
        Mnemonic::Single(SingleOperandOpcode::NegB) => seq![110u8, 101u8, 103u8, 98u8],
        Mnemonic::Single(SingleOperandOpcode::AdcB) => seq![97u8, 100u8, 99u8, 98u8],
        Mnemonic::Single(SingleOperandOpcode::SbcB) => seq![115u8, 98u8, 99u8, 98u8],
        Mnemonic::Single(SingleOperandOpcode::TstB) => seq![116u8, 115u8, 116u8, 98u8],
        Mnemonic::Single(SingleOperandOpcode::RorB) => seq![114u8, 111u8, 114u8, 98u8],
        Mnemonic::Single(SingleOperandOpcode::RolB) => seq![114u8, 111u8, 108u8, 98u8],
        Mnemonic::Single(SingleOperandOpcode::AsrB) => seq![97u8, 115u8, 114u8, 98u8],
        Mnemonic::Single(SingleOperandOpcode::AslB) => seq![97u8, 115u8, 108u8, 98u8],
        Mnemonic::Eis(EisOpcode::Mul) => seq![109u8, 117u8, 108u8],
        Mnemonic::Eis(EisOpcode::Div) => seq![100u8, 105u8, 118u8],
        Mnemonic::Eis(EisOpcode::Ash) => seq![97u8, 115u8, 104u8],
        Mnemonic::Eis(EisOpcode::Ashc) => seq![97u8, 115u8, 104u8, 99u8],
        Mnemonic::Eis(EisOpcode::Xor) => seq![120u8, 111u8, 114u8],
        Mnemonic::CC(CCOpcode::Nop) => seq![110u8, 111u8, 112u8],
        Mnemonic::CC(CCOpcode::Clc) => seq![99u8, 108u8, 99u8],
        Mnemonic::CC(CCOpcode::Clv) => seq![99u8, 108u8, 118u8],
        Mnemonic::CC(CCOpcode::Clz) => seq![99u8, 108u8, 122u8],
        Mnemonic::CC(CCOpcode::Cln) => seq![99u8, 108u8, 110u8],
        Mnemonic::CC(CCOpcode::Sec) => seq![115u8, 101u8, 99u8],
        Mnemonic::CC(CCOpcode::Sev) => seq![115u8, 101u8, 118u8],
        Mnemonic::CC(CCOpcode::Sez) => seq![115u8, 101u8, 122u8],
        Mnemonic::CC(CCOpcode::Sen) => seq![115u8, 101u8, 110u8],
        Mnemonic::Misc(MiscOpcode::Halt) => seq![104u8, 97u8, 108u8, 116u8],
        Mnemonic::Misc(MiscOpcode::Wait) => seq![119u8, 97u8, 105u8, 116u8],
        Mnemonic::Misc(MiscOpcode::Rti) => seq![114u8, 116u8, 105u8],
        Mnemonic::Misc(MiscOpcode::Iox) => seq![105u8, 111u8, 120u8],
        Mnemonic::Misc(MiscOpcode::Iot) => seq![105u8, 111u8, 116u8],
        Mnemonic::Misc(MiscOpcode::Reset) => seq![114u8, 101u8, 115u8, 101u8, 116u8],
        Mnemonic::Trap(TrapOpcode::Emt) => seq![101u8, 109u8, 116u8],
        Mnemonic::Trap(TrapOpcode::Trap) => seq![116u8, 114u8, 97u8, 112u8],
    }
}

/// The lower-case name of an instruction.
pub fn mnemonic_bytes(m: Mnemonic) -> (r: Vec<u8>)
    ensures
        r@ == mnemonic_text(m),
{
    match m {
        Mnemonic::Double(DoubleOperandOpcode::Mov) => vec![109u8, 111u8, 118u8],
        Mnemonic::Double(DoubleOperandOpcode::Cmp) => vec![99u8, 109u8, 112u8],
        Mnemonic::Double(DoubleOperandOpcode::Bit) => vec![98u8, 105u8, 116u8],
        Mnemonic::Double(DoubleOperandOpcode::Bic) => vec![98u8, 105u8, 99u8],
        Mnemonic::Double(DoubleOperandOpcode::Bis) => vec![98u8, 105u8, 115u8],
        Mnemonic::Double(DoubleOperandOpcode::Add) => vec![97u8, 100u8, 100u8],
        Mnemonic::Double(DoubleOperandOpcode::MovB) => vec![109u8, 111u8, 118u8, 98u8],
        Mnemonic::Double(DoubleOperandOpcode::CmpB) => vec![99u8, 109u8, 112u8, 98u8],
        Mnemonic::Double(DoubleOperandOpcode::BitB) => vec![98u8, 105u8, 116u8, 98u8],
        Mnemonic::Double(DoubleOperandOpcode::BicB) => vec![98u8, 105u8, 99u8, 98u8],
        Mnemonic::Double(DoubleOperandOpcode::BisB) => vec![98u8, 105u8, 115u8, 98u8],
        Mnemonic::Double(DoubleOperandOpcode::Sub) => vec![115u8, 117u8, 98u8],
        Mnemonic::Branch(BranchOpcode::Br) => vec![98u8, 114u8],
        Mnemonic::Branch(BranchOpcode::Bne) => vec![98u8, 110u8, 101u8],
        Mnemonic::Branch(BranchOpcode::Beq) => vec![98u8, 101u8, 113u8],
        Mnemonic::Branch(BranchOpcode::Bge) => vec![98u8, 103u8, 101u8],
        Mnemonic::Branch(BranchOpcode::Blt) => vec![98u8, 108u8, 116u8],
        Mnemonic::Branch(BranchOpcode::Bgt) => vec![98u8, 103u8, 116u8],
        Mnemonic::Branch(BranchOpcode::Ble) => vec![98u8, 108u8, 101u8],
        Mnemonic::Branch(BranchOpcode::Bpl) => vec![98u8, 112u8, 108u8],
        Mnemonic::Branch(BranchOpcode::Bmi) => vec![98u8, 109u8, 105u8],
        Mnemonic::Branch(BranchOpcode::Bhi) => vec![98u8, 104u8, 105u8],
        Mnemonic::Branch(BranchOpcode::Blos) => vec![98u8, 108u8, 111u8, 115u8],
        Mnemonic::Branch(BranchOpcode::Bvc) => vec![98u8, 118u8, 99u8],
        Mnemonic::Branch(BranchOpcode::Bvs) => vec![98u8, 118u8, 115u8],
        Mnemonic::Branch(BranchOpcode::Bcc) => vec![98u8, 99u8, 99u8],
        Mnemonic::Branch(BranchOpcode::Bcs) => vec![98u8, 99u8, 115u8],
        Mnemonic::Jmp(JmpOpcode::Jmp) => vec![106u8, 109u8, 112u8],
        Mnemonic::Jsr(JsrOpcode::Jsr) => vec![106u8, 115u8, 114u8],
        Mnemonic::Rts(RtsOpcode::Rts) => vec![114u8, 116u8, 115u8],
        Mnemonic::Single(SingleOperandOpcode::Swab) => vec![115u8, 119u8, 97u8, 98u8],
        Mnemonic::Single(SingleOperandOpcode::Clr) => vec![99u8, 108u8, 114u8],
        Mnemonic::Single(SingleOperandOpcode::Com) => vec![99u8, 111u8, 109u8],
        Mnemonic::Single(SingleOperandOpcode::Inc) => vec![105u8, 110u8, 99u8],
        Mnemonic::Single(SingleOperandOpcode::Dec) => vec![100u8, 101u8, 99u8],
        Mnemonic::Single(SingleOperandOpcode::Neg) => vec![110u8, 101u8, 103u8],
        Mnemonic::Single(SingleOperandOpcode::Adc) => vec![97u8, 100u8, 99u8],
        Mnemonic::Single(SingleOperandOpcode::Sbc) => vec![115u8, 98u8, 99u8],
        Mnemonic::Single(SingleOperandOpcode::Tst) => vec![116u8, 115u8, 116u8],
        Mnemonic::Single(SingleOperandOpcode::Ror) => vec![114u8, 111u8, 114u8],
        Mnemonic::Single(SingleOperandOpcode::Rol) => vec![114u8, 111u8, 108u8],
        Mnemonic::Single(SingleOperandOpcode::Asr) => vec![97u8, 115u8, 114u8],
        Mnemonic::Single(SingleOperandOpcode::Asl) => vec![97u8, 115u8, 108u8],
        Mnemonic::Single(SingleOperandOpcode::ClrB) => vec![99u8, 108u8, 114u8, 98u8],
        Mnemonic::Single(SingleOperandOpcode::ComB) => vec![99u8, 111u8, 109u8, 98u8],
        Mnemonic::Single(SingleOperandOpcode::IncB) => vec![105u8, 110u8, 99u8, 98u8],
        Mnemonic::Single(SingleOperandOpcode::DecB) => vec![100u8, 101u8, 99u8, 98u8],
        Mnemonic::Single(SingleOperandOpcode::NegB) => vec![110u8, 101u8, 103u8, 98u8],
        Mnemonic::Single(SingleOperandOpcode::AdcB) => vec![97u8, 100u8, 99u8, 98u8],
        Mnemonic::Single(SingleOperandOpcode::SbcB) => vec![115u8, 98u8, 99u8, 98u8],
        Mnemonic::Single(SingleOperandOpcode::TstB) => vec![116u8, 115u8, 116u8, 98u8],
        Mnemonic::Single(SingleOperandOpcode::RorB) => vec![114u8, 111u8, 114u8, 98u8],
        Mnemonic::Single(SingleOperandOpcode::RolB) => vec![114u8, 111u8, 108u8, 98u8],
        Mnemonic::Single(SingleOperandOpcode::AsrB) => vec![97u8, 115u8, 114u8, 98u8],
        Mnemonic::Single(SingleOperandOpcode::AslB) => vec![97u8, 115u8, 108u8, 98u8],
        Mnemonic::Eis(EisOpcode::Mul) => vec![109u8, 117u8, 108u8],
        Mnemonic::Eis(EisOpcode::Div) => vec![100u8, 105u8, 118u8],
        Mnemonic::Eis(EisOpcode::Ash) => vec![97u8, 115u8, 104u8],
        Mnemonic::Eis(EisOpcode::Ashc) => vec![97u8, 115u8, 104u8, 99u8],
        Mnemonic::Eis(EisOpcode::Xor) => vec![120u8, 111u8, 114u8],
        Mnemonic::CC(CCOpcode::Nop) => vec![110u8, 111u8, 112u8],
        Mnemonic::CC(CCOpcode::Clc) => vec![99u8, 108u8, 99u8],
        Mnemonic::CC(CCOpcode::Clv) => vec![99u8, 108u8, 118u8],
        Mnemonic::CC(CCOpcode::Clz) => vec![99u8, 108u8, 122u8],
        Mnemonic::CC(CCOpcode::Cln) => vec![99u8, 108u8, 110u8],
        Mnemonic::CC(CCOpcode::Sec) => vec![115u8, 101u8, 99u8],
        Mnemonic::CC(CCOpcode::Sev) => vec![115u8, 101u8, 118u8],
        Mnemonic::CC(CCOpcode::Sez) => vec![115u8, 101u8, 122u8],
        Mnemonic::CC(CCOpcode::Sen) => vec![115u8, 101u8, 110u8],
        Mnemonic::Misc(MiscOpcode::Halt) => vec![104u8, 97u8, 108u8, 116u8],
        Mnemonic::Misc(MiscOpcode::Wait) => vec![119u8, 97u8, 105u8, 116u8],
        Mnemonic::Misc(MiscOpcode::Rti) => vec![114u8, 116u8, 105u8],
        Mnemonic::Misc(MiscOpcode::Iox) => vec![105u8, 111u8, 120u8],
        Mnemonic::Misc(MiscOpcode::Iot) => vec![105u8, 111u8, 116u8],
        Mnemonic::Misc(MiscOpcode::Reset) => vec![114u8, 101u8, 115u8, 101u8, 116u8],
        Mnemonic::Trap(TrapOpcode::Emt) => vec![101u8, 109u8, 116u8],
        Mnemonic::Trap(TrapOpcode::Trap) => vec![116u8, 114u8, 97u8, 112u8],
    }
}

#[verifier::rlimit(50)]
proof fn lemma_double_reads_back(op: DoubleOperandOpcode)
    ensures
        spec_keyword(mnemonic_text(Mnemonic::Double(op))) == Some(Token::Mnemonic(Mnemonic::Double(op))),
{
    match op {
        DoubleOperandOpcode::Mov => {
            let s = seq![109u8, 111u8, 118u8];
            assert(s.len() == 3);
            assert(spec_keyword(s) == Some(Token::Mnemonic(Mnemonic::Double(DoubleOperandOpcode::Mov))));
        },
        DoubleOperandOpcode::Cmp => {
            let s = seq![99u8, 109u8, 112u8];
            assert(s.len() == 3);
            assert(spec_keyword(s) == Some(Token::Mnemonic(Mnemonic::Double(DoubleOperandOpcode::Cmp))));
        },
        DoubleOperandOpcode::Bit => {
            let s = seq![98u8, 105u8, 116u8];
            assert(s.len() == 3);
            assert(spec_keyword(s) == Some(Token::Mnemonic(Mnemonic::Double(DoubleOperandOpcode::Bit))));
        },
        DoubleOperandOpcode::Bic => {
            let s = seq![98u8, 105u8, 99u8];
            assert(s.len() == 3);
            assert(spec_keyword(s) == Some(Token::Mnemonic(Mnemonic::Double(DoubleOperandOpcode::Bic))));
        },
        DoubleOperandOpcode::Bis => {
            let s = seq![98u8, 105u8, 115u8];
            assert(s.len() == 3);
            assert(spec_keyword(s) == Some(Token::Mnemonic(Mnemonic::Double(DoubleOperandOpcode::Bis))));
        },
        DoubleOperandOpcode::Add => {
            let s = seq![97u8, 100u8, 100u8];
            assert(s.len() == 3);
            assert(spec_keyword(s) == Some(Token::Mnemonic(Mnemonic::Double(DoubleOperandOpcode::Add))));
        },
        DoubleOperandOpcode::MovB => {
            let s = seq![109u8, 111u8, 118u8, 98u8];
            assert(s.len() == 4);
            assert(spec_keyword(s) == Some(Token::Mnemonic(Mnemonic::Double(DoubleOperandOpcode::MovB))));
        },
        DoubleOperandOpcode::CmpB => {
            let s = seq![99u8, 109u8, 112u8, 98u8];
            assert(s.len() == 4);
            assert(spec_keyword(s) == Some(Token::Mnemonic(Mnemonic::Double(DoubleOperandOpcode::CmpB))));
        },
        DoubleOperandOpcode::BitB => {
            let s = seq![98u8, 105u8, 116u8, 98u8];
            assert(s.len() == 4);
            assert(spec_keyword(s) == Some(Token::Mnemonic(Mnemonic::Double(DoubleOperandOpcode::BitB))));
        },
        DoubleOperandOpcode::BicB => {
            let s = seq![98u8, 105u8, 99u8, 98u8];
            assert(s.len() == 4);
            assert(spec_keyword(s) == Some(Token::Mnemonic(Mnemonic::Double(DoubleOperandOpcode::BicB))));
        },
        DoubleOperandOpcode::BisB => {
            let s = seq![98u8, 105u8, 115u8, 98u8];
            assert(s.len() == 4);
            assert(spec_keyword(s) == Some(Token::Mnemonic(Mnemonic::Double(DoubleOperandOpcode::BisB))));
        },
        DoubleOperandOpcode::Sub => {
            let s = seq![115u8, 117u8, 98u8];
            assert(s.len() == 3);
            assert(spec_keyword(s) == Some(Token::Mnemonic(Mnemonic::Double(DoubleOperandOpcode::Sub))));
        },
    }
}

#[verifier::rlimit(50)]
proof fn lemma_branch_reads_back(op: BranchOpcode)
    ensures
        spec_keyword(mnemonic_text(Mnemonic::Branch(op))) == Some(Token::Mnemonic(Mnemonic::Branch(op))),
{
    match op {
        BranchOpcode::Br => {
            let s = seq![98u8, 114u8];
            assert(s.len() == 2);
            assert(spec_keyword(s) == Some(Token::Mnemonic(Mnemonic::Branch(BranchOpcode::Br))));
        },
        BranchOpcode::Bne => {
            let s = seq![98u8, 110u8, 101u8];
            assert(s.len() == 3);
            assert(spec_keyword(s) == Some(Token::Mnemonic(Mnemonic::Branch(BranchOpcode::Bne))));
        },
        BranchOpcode::Beq => {
            let s = seq![98u8, 101u8, 113u8];
            assert(s.len() == 3);
            assert(spec_keyword(s) == Some(Token::Mnemonic(Mnemonic::Branch(BranchOpcode::Beq))));
        },
        BranchOpcode::Bge => {
            let s = seq![98u8, 103u8, 101u8];
            assert(s.len() == 3);
            assert(spec_keyword(s) == Some(Token::Mnemonic(Mnemonic::Branch(BranchOpcode::Bge))));
        },
        BranchOpcode::Blt => {
            let s = seq![98u8, 108u8, 116u8];
            assert(s.len() == 3);
            assert(spec_keyword(s) == Some(Token::Mnemonic(Mnemonic::Branch(BranchOpcode::Blt))));
        },
        BranchOpcode::Bgt => {
            let s = seq![98u8, 103u8, 116u8];
            assert(s.len() == 3);
            assert(spec_keyword(s) == Some(Token::Mnemonic(Mnemonic::Branch(BranchOpcode::Bgt))));
        },
        BranchOpcode::Ble => {
            let s = seq![98u8, 108u8, 101u8];
            assert(s.len() == 3);
            assert(spec_keyword(s) == Some(Token::Mnemonic(Mnemonic::Branch(BranchOpcode::Ble))));
        },
        BranchOpcode::Bpl => {
            let s = seq![98u8, 112u8, 108u8];
            assert(s.len() == 3);
            assert(spec_keyword(s) == Some(Token::Mnemonic(Mnemonic::Branch(BranchOpcode::Bpl))));
        },
        BranchOpcode::Bmi => {
            let s = seq![98u8, 109u8, 105u8];
            assert(s.len() == 3);
            assert(spec_keyword(s) == Some(Token::Mnemonic(Mnemonic::Branch(BranchOpcode::Bmi))));
        },
        BranchOpcode::Bhi => {
            let s = seq![98u8, 104u8, 105u8];
            assert(s.len() == 3);
            assert(spec_keyword(s) == Some(Token::Mnemonic(Mnemonic::Branch(BranchOpcode::Bhi))));
        },
        BranchOpcode::Blos => {
            let s = seq![98u8, 108u8, 111u8, 115u8];
            assert(s.len() == 4);
            assert(spec_keyword(s) == Some(Token::Mnemonic(Mnemonic::Branch(BranchOpcode::Blos))));
        },
        BranchOpcode::Bvc => {
            let s = seq![98u8, 118u8, 99u8];
            assert(s.len() == 3);
            assert(spec_keyword(s) == Some(Token::Mnemonic(Mnemonic::Branch(BranchOpcode::Bvc))));
        },
        BranchOpcode::Bvs => {
            let s = seq![98u8, 118u8, 115u8];
            assert(s.len() == 3);
            assert(spec_keyword(s) == Some(Token::Mnemonic(Mnemonic::Branch(BranchOpcode::Bvs))));
        },
        BranchOpcode::Bcc => {
            let s = seq![98u8, 99u8, 99u8];
            assert(s.len() == 3);
            assert(spec_keyword(s) == Some(Token::Mnemonic(Mnemonic::Branch(BranchOpcode::Bcc))));
        },
        BranchOpcode::Bcs => {
            let s = seq![98u8, 99u8, 115u8];
            assert(s.len() == 3);
            assert(spec_keyword(s) == Some(Token::Mnemonic(Mnemonic::Branch(BranchOpcode::Bcs))));
        },
    }
}

#[verifier::rlimit(50)]
proof fn lemma_jmp_reads_back(op: JmpOpcode)
    ensures
        spec_keyword(mnemonic_text(Mnemonic::Jmp(op))) == Some(Token::Mnemonic(Mnemonic::Jmp(op))),
{
    match op {
        JmpOpcode::Jmp => {
            let s = seq![106u8, 109u8, 112u8];
            assert(s.len() == 3);
            assert(spec_keyword(s) == Some(Token::Mnemonic(Mnemonic::Jmp(JmpOpcode::Jmp))));
        },
    }
}

#[verifier::rlimit(50)]
proof fn lemma_jsr_reads_back(op: JsrOpcode)
    ensures
        spec_keyword(mnemonic_text(Mnemonic::Jsr(op))) == Some(Token::Mnemonic(Mnemonic::Jsr(op))),
{
    match op {
        JsrOpcode::Jsr => {
            let s = seq![106u8, 115u8, 114u8];
            assert(s.len() == 3);
            assert(spec_keyword(s) == Some(Token::Mnemonic(Mnemonic::Jsr(JsrOpcode::Jsr))));
        },
    }
}

#[verifier::rlimit(50)]
proof fn lemma_rts_reads_back(op: RtsOpcode)
    ensures
        spec_keyword(mnemonic_text(Mnemonic::Rts(op))) == Some(Token::Mnemonic(Mnemonic::Rts(op))),
{
    match op {
        RtsOpcode::Rts => {
            let s = seq![114u8, 116u8, 115u8];
            assert(s.len() == 3);
            assert(spec_keyword(s) == Some(Token::Mnemonic(Mnemonic::Rts(RtsOpcode::Rts))));
        },
    }
}

#[verifier::rlimit(50)]
proof fn lemma_single_reads_back(op: SingleOperandOpcode)
    ensures
        spec_keyword(mnemonic_text(Mnemonic::Single(op))) == Some(Token::Mnemonic(Mnemonic::Single(op))),
{
    match op {
        SingleOperandOpcode::Swab => {
            let s = seq![115u8, 119u8, 97u8, 98u8];
            assert(s.len() == 4);
            assert(spec_keyword(s) == Some(Token::Mnemonic(Mnemonic::Single(SingleOperandOpcode::Swab))));
        },
        SingleOperandOpcode::Clr => {
            let s = seq![99u8, 108u8, 114u8];
            assert(s.len() == 3);
            assert(spec_keyword(s) == Some(Token::Mnemonic(Mnemonic::Single(SingleOperandOpcode::Clr))));
        },
        SingleOperandOpcode::Com => {
            let s = seq![99u8, 111u8, 109u8];
            assert(s.len() == 3);
            assert(spec_keyword(s) == Some(Token::Mnemonic(Mnemonic::Single(SingleOperandOpcode::Com))));
        },
        SingleOperandOpcode::Inc => {
            let s = seq![105u8, 110u8, 99u8];
            assert(s.len() == 3);
            assert(spec_keyword(s) == Some(Token::Mnemonic(Mnemonic::Single(SingleOperandOpcode::Inc))));
        },
        SingleOperandOpcode::Dec => {
            let s = seq![100u8, 101u8, 99u8];
            assert(s.len() == 3);
            assert(spec_keyword(s) == Some(Token::Mnemonic(Mnemonic::Single(SingleOperandOpcode::Dec))));
        },
        SingleOperandOpcode::Neg => {
            let s = seq![110u8, 101u8, 103u8];
            assert(s.len() == 3);
            assert(spec_keyword(s) == Some(Token::Mnemonic(Mnemonic::Single(SingleOperandOpcode::Neg))));
        },
        SingleOperandOpcode::Adc => {
            let s = seq![97u8, 100u8, 99u8];
            assert(s.len() == 3);
            assert(spec_keyword(s) == Some(Token::Mnemonic(Mnemonic::Single(SingleOperandOpcode::Adc))));
        },
        SingleOperandOpcode::Sbc => {
            let s = seq![115u8, 98u8, 99u8];
            assert(s.len() == 3);
            assert(spec_keyword(s) == Some(Token::Mnemonic(Mnemonic::Single(SingleOperandOpcode::Sbc))));
        },
        SingleOperandOpcode::Tst => {
            let s = seq![116u8, 115u8, 116u8];
            assert(s.len() == 3);
            assert(spec_keyword(s) == Some(Token::Mnemonic(Mnemonic::Single(SingleOperandOpcode::Tst))));
        },
        SingleOperandOpcode::Ror => {
            let s = seq![114u8, 111u8, 114u8];
            assert(s.len() == 3);
            assert(spec_keyword(s) == Some(Token::Mnemonic(Mnemonic::Single(SingleOperandOpcode::Ror))));
        },
        SingleOperandOpcode::Rol => {
            let s = seq![114u8, 111u8, 108u8];
            assert(s.len() == 3);
            assert(spec_keyword(s) == Some(Token::Mnemonic(Mnemonic::Single(SingleOperandOpcode::Rol))));
        },
        SingleOperandOpcode::Asr => {
            let s = seq![97u8, 115u8, 114u8];
            assert(s.len() == 3);
            assert(spec_keyword(s) == Some(Token::Mnemonic(Mnemonic::Single(SingleOperandOpcode::Asr))));
        },
        SingleOperandOpcode::Asl => {
            let s = seq![97u8, 115u8, 108u8];
            assert(s.len() == 3);
            assert(spec_keyword(s) == Some(Token::Mnemonic(Mnemonic::Single(SingleOperandOpcode::Asl))));
        },
        SingleOperandOpcode::ClrB => {
            let s = seq![99u8, 108u8, 114u8, 98u8];
            assert(s.len() == 4);
            assert(spec_keyword(s) == Some(Token::Mnemonic(Mnemonic::Single(SingleOperandOpcode::ClrB))));
        },
        SingleOperandOpcode::ComB => {
            let s = seq![99u8, 111u8, 109u8, 98u8];
            assert(s.len() == 4);
            assert(spec_keyword(s) == Some(Token::Mnemonic(Mnemonic::Single(SingleOperandOpcode::ComB))));
        },
        SingleOperandOpcode::IncB => {
            let s = seq![105u8, 110u8, 99u8, 98u8];
            assert(s.len() == 4);
            assert(spec_keyword(s) == Some(Token::Mnemonic(Mnemonic::Single(SingleOperandOpcode::IncB))));
        },
        SingleOperandOpcode::DecB => {
            let s = seq![100u8, 101u8, 99u8, 98u8];
            assert(s.len() == 4);
            assert(spec_keyword(s) == Some(Token::Mnemonic(Mnemonic::Single(SingleOperandOpcode::DecB))));
        },
        SingleOperandOpcode::NegB => {
            let s = seq![110u8, 101u8, 103u8, 98u8];
            assert(s.len() == 4);
            assert(spec_keyword(s) == Some(Token::Mnemonic(Mnemonic::Single(SingleOperandOpcode::NegB))));
        },
        SingleOperandOpcode::AdcB => {
            let s = seq![97u8, 100u8, 99u8, 98u8];
            assert(s.len() == 4);
            assert(spec_keyword(s) == Some(Token::Mnemonic(Mnemonic::Single(SingleOperandOpcode::AdcB))));
        },
        SingleOperandOpcode::SbcB => {
            let s = seq![115u8, 98u8, 99u8, 98u8];
            assert(s.len() == 4);
            assert(spec_keyword(s) == Some(Token::Mnemonic(Mnemonic::Single(SingleOperandOpcode::SbcB))));
        },
        SingleOperandOpcode::TstB => {
            let s = seq![116u8, 115u8, 116u8, 98u8];
            assert(s.len() == 4);
            assert(spec_keyword(s) == Some(Token::Mnemonic(Mnemonic::Single(SingleOperandOpcode::TstB))));
        },
        SingleOperandOpcode::RorB => {
            let s = seq![114u8, 111u8, 114u8, 98u8];
            assert(s.len() == 4);
            assert(spec_keyword(s) == Some(Token::Mnemonic(Mnemonic::Single(SingleOperandOpcode::RorB))));
        },
        SingleOperandOpcode::RolB => {
            let s = seq![114u8, 111u8, 108u8, 98u8];
            assert(s.len() == 4);
            assert(spec_keyword(s) == Some(Token::Mnemonic(Mnemonic::Single(SingleOperandOpcode::RolB))));
        },
        SingleOperandOpcode::AsrB => {
            let s = seq![97u8, 115u8, 114u8, 98u8];
            assert(s.len() == 4);
            assert(spec_keyword(s) == Some(Token::Mnemonic(Mnemonic::Single(SingleOperandOpcode::AsrB))));
        },
        SingleOperandOpcode::AslB => {
            let s = seq![97u8, 115u8, 108u8, 98u8];
            assert(s.len() == 4);
            assert(spec_keyword(s) == Some(Token::Mnemonic(Mnemonic::Single(SingleOperandOpcode::AslB))));
        },
    }
}

#[verifier::rlimit(50)]
proof fn lemma_eis_reads_back(op: EisOpcode)
    ensures
        spec_keyword(mnemonic_text(Mnemonic::Eis(op))) == Some(Token::Mnemonic(Mnemonic::Eis(op))),
{
    match op {
        EisOpcode::Mul => {
            let s = seq![109u8, 117u8, 108u8];
            assert(s.len() == 3);
            assert(spec_keyword(s) == Some(Token::Mnemonic(Mnemonic::Eis(EisOpcode::Mul))));
        },
        EisOpcode::Div => {
            let s = seq![100u8, 105u8, 118u8];
            assert(s.len() == 3);
            assert(spec_keyword(s) == Some(Token::Mnemonic(Mnemonic::Eis(EisOpcode::Div))));
        },
        EisOpcode::Ash => {
            let s = seq![97u8, 115u8, 104u8];
            assert(s.len() == 3);
            assert(spec_keyword(s) == Some(Token::Mnemonic(Mnemonic::Eis(EisOpcode::Ash))));
        },
        EisOpcode::Ashc => {
            let s = seq![97u8, 115u8, 104u8, 99u8];
            assert(s.len() == 4);
            assert(spec_keyword(s) == Some(Token::Mnemonic(Mnemonic::Eis(EisOpcode::Ashc))));
        },
        EisOpcode::Xor => {
            let s = seq![120u8, 111u8, 114u8];
            assert(s.len() == 3);
            assert(spec_keyword(s) == Some(Token::Mnemonic(Mnemonic::Eis(EisOpcode::Xor))));
        },
    }
}

#[verifier::rlimit(50)]
proof fn lemma_cc_reads_back(op: CCOpcode)
    ensures
        spec_keyword(mnemonic_text(Mnemonic::CC(op))) == Some(Token::Mnemonic(Mnemonic::CC(op))),
{
    match op {
        CCOpcode::Nop => {
            let s = seq![110u8, 111u8, 112u8];
            assert(s.len() == 3);
            assert(spec_keyword(s) == Some(Token::Mnemonic(Mnemonic::CC(CCOpcode::Nop))));
        },
        CCOpcode::Clc => {
            let s = seq![99u8, 108u8, 99u8];
            assert(s.len() == 3);
            assert(spec_keyword(s) == Some(Token::Mnemonic(Mnemonic::CC(CCOpcode::Clc))));
        },
        CCOpcode::Clv => {
            let s = seq![99u8, 108u8, 118u8];
            assert(s.len() == 3);
            assert(spec_keyword(s) == Some(Token::Mnemonic(Mnemonic::CC(CCOpcode::Clv))));
        },
        CCOpcode::Clz => {
            let s = seq![99u8, 108u8, 122u8];
            assert(s.len() == 3);
            assert(spec_keyword(s) == Some(Token::Mnemonic(Mnemonic::CC(CCOpcode::Clz))));
        },
        CCOpcode::Cln => {
            let s = seq![99u8, 108u8, 110u8];
            assert(s.len() == 3);
            assert(spec_keyword(s) == Some(Token::Mnemonic(Mnemonic::CC(CCOpcode::Cln))));
        },
        CCOpcode::Sec => {
            let s = seq![115u8, 101u8, 99u8];
            assert(s.len() == 3);
            assert(spec_keyword(s) == Some(Token::Mnemonic(Mnemonic::CC(CCOpcode::Sec))));
        },
        CCOpcode::Sev => {
            let s = seq![115u8, 101u8, 118u8];
            assert(s.len() == 3);
            assert(spec_keyword(s) == Some(Token::Mnemonic(Mnemonic::CC(CCOpcode::Sev))));
        },
        CCOpcode::Sez => {
            let s = seq![115u8, 101u8, 122u8];
            assert(s.len() == 3);
            assert(spec_keyword(s) == Some(Token::Mnemonic(Mnemonic::CC(CCOpcode::Sez))));
        },
        CCOpcode::Sen => {
            let s = seq![115u8, 101u8, 110u8];
            assert(s.len() == 3);
            assert(spec_keyword(s) == Some(Token::Mnemonic(Mnemonic::CC(CCOpcode::Sen))));
        },
    }
}

#[verifier::rlimit(50)]
proof fn lemma_misc_reads_back(op: MiscOpcode)
    ensures
        spec_keyword(mnemonic_text(Mnemonic::Misc(op))) == Some(Token::Mnemonic(Mnemonic::Misc(op))),
{
    match op {
        MiscOpcode::Halt => {
            let s = seq![104u8, 97u8, 108u8, 116u8];
            assert(s.len() == 4);
            assert(spec_keyword(s) == Some(Token::Mnemonic(Mnemonic::Misc(MiscOpcode::Halt))));
        },
        MiscOpcode::Wait => {
            let s = seq![119u8, 97u8, 105u8, 116u8];
            assert(s.len() == 4);
            assert(spec_keyword(s) == Some(Token::Mnemonic(Mnemonic::Misc(MiscOpcode::Wait))));
        },
        MiscOpcode::Rti => {
            let s = seq![114u8, 116u8, 105u8];
            assert(s.len() == 3);
            assert(spec_keyword(s) == Some(Token::Mnemonic(Mnemonic::Misc(MiscOpcode::Rti))));
        },
        MiscOpcode::Iox => {
            let s = seq![105u8, 111u8, 120u8];
            assert(s.len() == 3);
            assert(spec_keyword(s) == Some(Token::Mnemonic(Mnemonic::Misc(MiscOpcode::Iox))));
        },
        MiscOpcode::Iot => {
            let s = seq![105u8, 111u8, 116u8];
            assert(s.len() == 3);
            assert(spec_keyword(s) == Some(Token::Mnemonic(Mnemonic::Misc(MiscOpcode::Iot))));
        },
        MiscOpcode::Reset => {
            let s = seq![114u8, 101u8, 115u8, 101u8, 116u8];
            assert(s.len() == 5);
            assert(spec_keyword(s) == Some(Token::Mnemonic(Mnemonic::Misc(MiscOpcode::Reset))));
        },
    }
}

#[verifier::rlimit(50)]
proof fn lemma_trap_reads_back(op: TrapOpcode)
    ensures
        spec_keyword(mnemonic_text(Mnemonic::Trap(op))) == Some(Token::Mnemonic(Mnemonic::Trap(op))),
{
    match op {
        TrapOpcode::Emt => {
            let s = seq![101u8, 109u8, 116u8];
            assert(s.len() == 3);
            assert(spec_keyword(s) == Some(Token::Mnemonic(Mnemonic::Trap(TrapOpcode::Emt))));
        },
        TrapOpcode::Trap => {
            let s = seq![116u8, 114u8, 97u8, 112u8];
            assert(s.len() == 4);
            assert(spec_keyword(s) == Some(Token::Mnemonic(Mnemonic::Trap(TrapOpcode::Trap))));
        },
    }
}

/// Every instruction name reads back, in the assembler, as the same
/// instruction.
pub proof fn lemma_mnemonic_reads_back(m: Mnemonic)
    ensures
        spec_keyword(mnemonic_text(m)) == Some(Token::Mnemonic(m)),
{
    match m {
        Mnemonic::Double(op) => lemma_double_reads_back(op),
        Mnemonic::Branch(op) => lemma_branch_reads_back(op),
        Mnemonic::Jmp(op) => lemma_jmp_reads_back(op),
        Mnemonic::Jsr(op) => lemma_jsr_reads_back(op),
        Mnemonic::Rts(op) => lemma_rts_reads_back(op),
        Mnemonic::Single(op) => lemma_single_reads_back(op),
        Mnemonic::Eis(op) => lemma_eis_reads_back(op),
        Mnemonic::CC(op) => lemma_cc_reads_back(op),
        Mnemonic::Misc(op) => lemma_misc_reads_back(op),
        Mnemonic::Trap(op) => lemma_trap_reads_back(op),
    }
}


/// The number an operand prints: the value of its extra word.
pub open spec fn operand_val(o: Operand) -> u16 {
    o.extra.spec_val()
}

/// An operand can be printed: the extra word its mode needs is a value.
pub open spec fn printable(o: Operand) -> bool {
    o.spec_needs_extra() ==> o.extra.is_val()
}

/// `(r)`, the register in parentheses.
pub open spec fn paren_reg(r: Reg) -> Seq<u8> {
    seq![40u8] + reg_text(r) + seq![41u8]
}

/// An operand in assembler syntax. Relative operands show their target as
/// an offset from the instruction, `. + 0o..`; immediate ones `#0o..`,
/// absolute ones `@#0o..`.
pub open spec fn operand_text(o: Operand) -> Seq<u8> {
    let v = operand_val(o);
    let r = o.reg;
    if r == Reg::PC && o.mode == AddrMode::Index {
        seq![46u8, 32u8, 43u8, 32u8] + oct_text(((2 + v) % 65536) as u16)
    } else if r == Reg::PC && o.mode == AddrMode::IndexDef {
        seq![64u8, 32u8, 46u8, 32u8, 43u8, 32u8] + oct_text(((2 + v) % 65536) as u16)
    } else if r == Reg::PC && o.mode == AddrMode::AutoInc {
        seq![35u8] + oct_text(v)
    } else if r == Reg::PC && o.mode == AddrMode::AutoIncDef {
        seq![64u8, 35u8] + oct_text(v)
    } else {
        match o.mode {
            AddrMode::Gen => reg_text(r),
            AddrMode::Def => paren_reg(r),
            AddrMode::AutoInc => paren_reg(r) + seq![43u8],
            AddrMode::AutoIncDef => seq![64u8] + paren_reg(r) + seq![43u8],
            AddrMode::AutoDec => seq![45u8] + paren_reg(r),
            AddrMode::AutoDecDef => seq![64u8, 45u8] + paren_reg(r),
            AddrMode::Index => oct_text(v) + paren_reg(r),
            AddrMode::IndexDef => seq![64u8] + oct_text(v) + paren_reg(r),
        }
    }
}

/// An operand of the instruction at `pc`: relative operands show the
/// address they reach, counted from the word after the instruction word.
pub open spec fn operand_text_at(o: Operand, pc: u16) -> Seq<u8> {
    let dest = ((pc + 2 + operand_val(o)) % 65536) as u16;
    if o.reg == Reg::PC && o.mode == AddrMode::Index {
        oct_text(dest)
    } else if o.reg == Reg::PC && o.mode == AddrMode::IndexDef {
        seq![64u8, 32u8] + oct_text(dest)
    } else {
        operand_text(o)
    }
}

fn push_paren_reg(out: &mut Vec<u8>, r: Reg)
    ensures
        final(out)@ == old(out)@ + paren_reg(r),
{
    out.push(40);
    push_reg(out, r);
    out.push(41);
    assert(final(out)@ =~= old(out)@ + paren_reg(r));
}

/// Appends an operand; see [`operand_text`].
pub fn push_operand(out: &mut Vec<u8>, o: &Operand)
    requires
        printable(*o),
    ensures
        final(out)@ == old(out)@ + operand_text(*o),
{
    let r = o.reg;
    let pc = matches!(r, Reg::PC);
    match o.mode {
        AddrMode::Index if pc => {
            push_bytes(out, &[46u8, 32u8, 43u8, 32u8]);
            push_oct(out, 2u16.wrapping_add(o.extra.unwrap_val()));
        },
        AddrMode::IndexDef if pc => {
            push_bytes(out, &[64u8, 32u8, 46u8, 32u8, 43u8, 32u8]);
            push_oct(out, 2u16.wrapping_add(o.extra.unwrap_val()));
        },
        AddrMode::AutoInc if pc => {
            out.push(35);
            push_oct(out, o.extra.unwrap_val());
        },
        AddrMode::AutoIncDef if pc => {
            push_bytes(out, &[64u8, 35u8]);
            push_oct(out, o.extra.unwrap_val());
        },
        AddrMode::Gen => push_reg(out, r),
        AddrMode::Def => push_paren_reg(out, r),
        AddrMode::AutoInc => {
            push_paren_reg(out, r);
            out.push(43);
        },
        AddrMode::AutoIncDef => {
            out.push(64);
            push_paren_reg(out, r);
            out.push(43);
        },
        AddrMode::AutoDec => {
            out.push(45);
            push_paren_reg(out, r);
        },
        AddrMode::AutoDecDef => {
            push_bytes(out, &[64u8, 45u8]);
            push_paren_reg(out, r);
        },
        AddrMode::Index => {
            push_oct(out, o.extra.unwrap_val());
            push_paren_reg(out, r);
        },
        AddrMode::IndexDef => {
            out.push(64);
            push_oct(out, o.extra.unwrap_val());
            push_paren_reg(out, r);
        },
    }
    assert(final(out)@ =~= old(out)@ + operand_text(*o));
}

/// Appends an operand of the instruction at `pc`; see [`operand_text_at`].
pub fn push_operand_at(out: &mut Vec<u8>, o: &Operand, pc: u16)
    requires
        printable(*o),
    ensures
        final(out)@ == old(out)@ + operand_text_at(*o, pc),
{
    let is_pc = matches!(o.reg, Reg::PC);
    match o.mode {
        AddrMode::Index if is_pc => {
            push_oct(out, pc.wrapping_add(2).wrapping_add(o.extra.unwrap_val()));
        },
        AddrMode::IndexDef if is_pc => {
            push_bytes(out, &[64u8, 32u8]);
            push_oct(out, pc.wrapping_add(2).wrapping_add(o.extra.unwrap_val()));
        },
        _ => push_operand(out, o),
    }
    assert(final(out)@ =~= old(out)@ + operand_text_at(*o, pc));
}

/// A byte as a signed number.
pub open spec fn sext8(b: u8) -> int {
    if b < 128 {
        b as int
    } else {
        b - 256
    }
}

/// Where a branch with offset `off` goes from `next`, the word after it.
pub open spec fn branch_dest(next: u16, off: u8) -> u16 {
    ((next + 2 * sext8(off) + 65536) % 65536) as u16
}

fn exec_branch_dest(next: u16, off: u8) -> (r: u16)
    ensures
        r == branch_dest(next, off),
{
    let t: u16 = if off < 128 {
        2 * (off as u16)
    } else {
        2 * (off as u16) + 65024
    };
    next.wrapping_add(t)
}

/// A resolved branch target, as an offset from the branch: `. + 0o..`.
pub open spec fn target_text(t: Target) -> Seq<u8> {
    match t {
        Target::Offset(off) => seq![46u8, 32u8, 43u8, 32u8] + oct_text(branch_dest(2, off)),
        _ => seq![],
    }
}

/// A branch target as the source writes it: a label by its name in
/// `names`, a temporary label as its number in decimal followed by `f`
/// (forwards) or `b` (backwards), a resolved one as in [`target_text`].
pub open spec fn named_target_text(t: Target, names: Seq<Seq<u8>>) -> Seq<u8> {
    match t {
        Target::Label(id) => names[id as int],
        Target::TmpLabelF(n) => dec_digits(n as nat).push(102u8),
        Target::TmpLabelB(n) => dec_digits(n as nat).push(98u8),
        Target::Offset(_) => target_text(t),
    }
}

/// A resolved branch target of the branch at `pc`, as the address it reaches.
pub open spec fn target_text_at(t: Target, pc: u16) -> Seq<u8> {
    match t {
        Target::Offset(off) => oct_text(branch_dest(((pc + 2) % 65536) as u16, off)),
        _ => seq![],
    }
}

/// The name of an instruction.
pub open spec fn ins_mnemonic(ins: Ins) -> Mnemonic {
    match ins {
        Ins::DoubleOperand(i) => Mnemonic::Double(i.op),
        Ins::Branch(i) => Mnemonic::Branch(i.op),
        Ins::Jmp(i) => Mnemonic::Jmp(i.op),
        Ins::Jsr(i) => Mnemonic::Jsr(i.op),
        Ins::Rts(i) => Mnemonic::Rts(i.op),
        Ins::SingleOperand(i) => Mnemonic::Single(i.op),
        Ins::Eis(i) => Mnemonic::Eis(i.op),
        Ins::CC(i) => Mnemonic::CC(i.op),
        Ins::Misc(i) => Mnemonic::Misc(i.op),
        Ins::Trap(i) => Mnemonic::Trap(i.op),
    }
}

fn exec_ins_mnemonic(ins: &Ins) -> (r: Mnemonic)
    ensures
        r == ins_mnemonic(*ins),
{
    match ins {
        Ins::DoubleOperand(i) => Mnemonic::Double(i.op),
        Ins::Branch(i) => Mnemonic::Branch(i.op),
        Ins::Jmp(i) => Mnemonic::Jmp(i.op),
        Ins::Jsr(i) => Mnemonic::Jsr(i.op),
        Ins::Rts(i) => Mnemonic::Rts(i.op),
        Ins::SingleOperand(i) => Mnemonic::Single(i.op),
        Ins::Eis(i) => Mnemonic::Eis(i.op),
        Ins::CC(i) => Mnemonic::CC(i.op),
        Ins::Misc(i) => Mnemonic::Misc(i.op),
        Ins::Trap(i) => Mnemonic::Trap(i.op),
    }
}

/// An instruction can be printed: its operands can, its branch target is an
/// offset and its trap data a value.
pub open spec fn printable_ins(ins: Ins) -> bool {
    match ins {
        Ins::DoubleOperand(i) => printable(i.src) && printable(i.dst),
        Ins::Branch(i) => i.target is Offset,
        Ins::Jmp(i) => printable(i.dst),
        Ins::Jsr(i) => printable(i.dst),
        Ins::SingleOperand(i) => printable(i.dst),
        Ins::Eis(i) => printable(i.operand),
        Ins::Trap(i) => i.data.is_val(),
        _ => true,
    }
}

/// An instruction in assembler syntax: the name, a tab, then the operands
/// separated by `, `.
pub open spec fn ins_text(ins: Ins) -> Seq<u8> {
    let mn = mnemonic_text(ins_mnemonic(ins));
    let tab = seq![9u8];
    let sep = seq![44u8, 32u8];
    match ins {
        Ins::DoubleOperand(i) => mn + tab + operand_text(i.src) + sep + operand_text(i.dst),
        Ins::Branch(i) => mn + tab + target_text(i.target),
        Ins::Jmp(i) => mn + tab + operand_text(i.dst),
        Ins::Jsr(i) => mn + tab + reg_text(i.reg) + sep + operand_text(i.dst),
        Ins::Rts(i) => mn + tab + reg_text(i.reg),
        Ins::SingleOperand(i) => mn + tab + operand_text(i.dst),
        Ins::Eis(i) => mn + tab + reg_text(i.reg) + sep + operand_text(i.operand),
        Ins::Trap(i) => mn + tab + oct_text(i.data.spec_val()),
        _ => mn,
    }
}

/// The instruction at `pc` in assembler syntax, with relative operands and
/// branch targets as the addresses they reach. Every operand is counted
/// from the word after the instruction word, and after the register of a
/// `jsr` or an extended instruction comes a comma without a space.
pub open spec fn ins_text_at(ins: Ins, pc: u16) -> Seq<u8> {
    let mn = mnemonic_text(ins_mnemonic(ins));
    let tab = seq![9u8];
    match ins {
        Ins::DoubleOperand(i) => mn + tab + operand_text_at(i.src, pc) + seq![44u8, 32u8]
            + operand_text_at(i.dst, pc),
        Ins::Branch(i) => mn + tab + target_text_at(i.target, pc),
        Ins::Jmp(i) => mn + tab + operand_text_at(i.dst, pc),
        Ins::Jsr(i) => mn + tab + reg_text(i.reg) + seq![44u8] + operand_text_at(i.dst, pc),
        Ins::SingleOperand(i) => mn + tab + operand_text_at(i.dst, pc),
        Ins::Eis(i) => mn + tab + reg_text(i.reg) + seq![44u8] + operand_text_at(i.operand, pc),
        _ => ins_text(ins),
    }
}

/// Appends an instruction; see [`ins_text`].
#[verifier::spinoff_prover]
pub fn push_ins(out: &mut Vec<u8>, ins: &Ins)
    requires
        printable_ins(*ins),
    ensures
        final(out)@ == old(out)@ + ins_text(*ins),
{
    let mn = mnemonic_bytes(exec_ins_mnemonic(ins));
    push_bytes(out, mn.as_slice());
    match ins {
        Ins::DoubleOperand(i) => {
            out.push(9);
            push_operand(out, &i.src);
            push_bytes(out, &[44u8, 32u8]);
            push_operand(out, &i.dst);
        },
        Ins::Branch(i) => {
            out.push(9);
            if let Target::Offset(off) = i.target {
                push_bytes(out, &[46u8, 32u8, 43u8, 32u8]);
                push_oct(out, exec_branch_dest(2, off));
            }
        },
        Ins::Jmp(i) => {
            out.push(9);
            push_operand(out, &i.dst);
        },
        Ins::Jsr(i) => {
            out.push(9);
            push_reg(out, i.reg);
            push_bytes(out, &[44u8, 32u8]);
            push_operand(out, &i.dst);
        },
        Ins::Rts(i) => {
            out.push(9);
            push_reg(out, i.reg);
        },
        Ins::SingleOperand(i) => {
            out.push(9);
            push_operand(out, &i.dst);
        },
        Ins::Eis(i) => {
            out.push(9);
            push_reg(out, i.reg);
            push_bytes(out, &[44u8, 32u8]);
            push_operand(out, &i.operand);
        },
        Ins::Trap(i) => {
            out.push(9);
            push_oct(out, i.data.unwrap_val());
        },
        _ => {},
    }
    assert(final(out)@ =~= old(out)@ + ins_text(*ins));
}

fn push_double_at(out: &mut Vec<u8>, i: &DoubleOperandIns, pc: u16)
    requires
        printable_ins(Ins::DoubleOperand(*i)),
    ensures
        final(out)@ == old(out)@ + ins_text_at(Ins::DoubleOperand(*i), pc),
{
    let mn = mnemonic_bytes(Mnemonic::Double(i.op));
    push_bytes(out, mn.as_slice());
    out.push(9);
    push_operand_at(out, &i.src, pc);
    push_bytes(out, &[44u8, 32u8]);
    push_operand_at(out, &i.dst, pc);
    assert(final(out)@ =~= old(out)@ + ins_text_at(Ins::DoubleOperand(*i), pc));
}

fn push_branch_at(out: &mut Vec<u8>, i: &BranchIns, pc: u16)
    requires
        printable_ins(Ins::Branch(*i)),
    ensures
        final(out)@ == old(out)@ + ins_text_at(Ins::Branch(*i), pc),
{
    let mn = mnemonic_bytes(Mnemonic::Branch(i.op));
    push_bytes(out, mn.as_slice());
    out.push(9);
    if let Target::Offset(off) = i.target {
        push_oct(out, exec_branch_dest(pc.wrapping_add(2), off));
    }
    assert(final(out)@ =~= old(out)@ + ins_text_at(Ins::Branch(*i), pc));
}

fn push_jmp_at(out: &mut Vec<u8>, i: &JmpIns, pc: u16)
    requires
        printable_ins(Ins::Jmp(*i)),
    ensures
        final(out)@ == old(out)@ + ins_text_at(Ins::Jmp(*i), pc),
{
    let mn = mnemonic_bytes(Mnemonic::Jmp(i.op));
    push_bytes(out, mn.as_slice());
    out.push(9);
    push_operand_at(out, &i.dst, pc);
    assert(final(out)@ =~= old(out)@ + ins_text_at(Ins::Jmp(*i), pc));
}

fn push_jsr_at(out: &mut Vec<u8>, i: &JsrIns, pc: u16)
    requires
        printable_ins(Ins::Jsr(*i)),
    ensures
        final(out)@ == old(out)@ + ins_text_at(Ins::Jsr(*i), pc),
{
    let mn = mnemonic_bytes(Mnemonic::Jsr(i.op));
    push_bytes(out, mn.as_slice());
    out.push(9);
    push_reg(out, i.reg);
    out.push(44);
    push_operand_at(out, &i.dst, pc);
    assert(final(out)@ =~= old(out)@ + ins_text_at(Ins::Jsr(*i), pc));
}

fn push_single_at(out: &mut Vec<u8>, i: &SingleOperandIns, pc: u16)
    requires
        printable_ins(Ins::SingleOperand(*i)),
    ensures
        final(out)@ == old(out)@ + ins_text_at(Ins::SingleOperand(*i), pc),
{
    let mn = mnemonic_bytes(Mnemonic::Single(i.op));
    push_bytes(out, mn.as_slice());
    out.push(9);
    push_operand_at(out, &i.dst, pc);
    assert(final(out)@ =~= old(out)@ + ins_text_at(Ins::SingleOperand(*i), pc));
}

fn push_eis_at(out: &mut Vec<u8>, i: &EisIns, pc: u16)
    requires
        printable_ins(Ins::Eis(*i)),
    ensures
        final(out)@ == old(out)@ + ins_text_at(Ins::Eis(*i), pc),
{
    let mn = mnemonic_bytes(Mnemonic::Eis(i.op));
    push_bytes(out, mn.as_slice());
    out.push(9);
    push_reg(out, i.reg);
    out.push(44);
    push_operand_at(out, &i.operand, pc);
    assert(final(out)@ =~= old(out)@ + ins_text_at(Ins::Eis(*i), pc));
}

fn push_rts_at(out: &mut Vec<u8>, i: &RtsIns, pc: u16)
    requires
        printable_ins(Ins::Rts(*i)),
    ensures
        final(out)@ == old(out)@ + ins_text_at(Ins::Rts(*i), pc),
{
    let mn = mnemonic_bytes(Mnemonic::Rts(i.op));
    push_bytes(out, mn.as_slice());
    out.push(9);
    push_reg(out, i.reg);
    assert(final(out)@ =~= old(out)@ + ins_text_at(Ins::Rts(*i), pc));
}

fn push_cc_at(out: &mut Vec<u8>, i: &CCIns, pc: u16)
    requires
        printable_ins(Ins::CC(*i)),
    ensures
        final(out)@ == old(out)@ + ins_text_at(Ins::CC(*i), pc),
{
    let mn = mnemonic_bytes(Mnemonic::CC(i.op));
    push_bytes(out, mn.as_slice());

    assert(final(out)@ =~= old(out)@ + ins_text_at(Ins::CC(*i), pc));
}

fn push_misc_at(out: &mut Vec<u8>, i: &MiscIns, pc: u16)
    requires
        printable_ins(Ins::Misc(*i)),
    ensures
        final(out)@ == old(out)@ + ins_text_at(Ins::Misc(*i), pc),
{
    let mn = mnemonic_bytes(Mnemonic::Misc(i.op));
    push_bytes(out, mn.as_slice());

    assert(final(out)@ =~= old(out)@ + ins_text_at(Ins::Misc(*i), pc));
}

fn push_trap_at(out: &mut Vec<u8>, i: &TrapIns, pc: u16)
    requires
        printable_ins(Ins::Trap(*i)),
    ensures
        final(out)@ == old(out)@ + ins_text_at(Ins::Trap(*i), pc),
{
    let mn = mnemonic_bytes(Mnemonic::Trap(i.op));
    push_bytes(out, mn.as_slice());
    out.push(9);
    push_oct(out, i.data.unwrap_val());
    assert(final(out)@ =~= old(out)@ + ins_text_at(Ins::Trap(*i), pc));
}

/// Appends the instruction at `pc`; see [`ins_text_at`].
pub fn push_ins_at(out: &mut Vec<u8>, ins: &Ins, pc: u16)
    requires
        printable_ins(*ins),
    ensures
        final(out)@ == old(out)@ + ins_text_at(*ins, pc),
{
    match ins {
        Ins::DoubleOperand(i) => push_double_at(out, i, pc),
        Ins::Branch(i) => push_branch_at(out, i, pc),
        Ins::Jmp(i) => push_jmp_at(out, i, pc),
        Ins::Jsr(i) => push_jsr_at(out, i, pc),
        Ins::SingleOperand(i) => push_single_at(out, i, pc),
        Ins::Eis(i) => push_eis_at(out, i, pc),
        _ => push_ins(out, ins),
    }
}

/// One of the three word cells of a disassembly line: the word in octal, or
/// eight blanks past the piece's words; then a blank.
pub open spec fn word_cell(repr: Seq<u16>, i: int) -> Seq<u8> {
    if i < repr.len() {
        oct_word_text(repr[i]) + seq![32u8]
    } else {
        seq![32u8, 32u8, 32u8, 32u8, 32u8, 32u8, 32u8, 32u8, 32u8]
    }
}

/// A line of a disassembly: the address, a tab, the words, a tab, and the
/// instruction with the addresses it reaches.
pub open spec fn dis_text(d: (u16, Seq<u16>, Option<Ins>)) -> Seq<u8> {
    oct_word_text(d.0) + seq![9u8] + word_cell(d.1, 0) + word_cell(d.1, 1) + word_cell(d.1, 2)
        + seq![9u8] + match d.2 {
        Some(ins) => ins_text_at(ins, d.0),
        None => seq![],
    }
}

fn push_word_cell(out: &mut Vec<u8>, repr: &Vec<u16>, i: usize)
    ensures
        final(out)@ == old(out)@ + word_cell(repr@, i as int),
{
    if i < repr.len() {
        push_oct_word(out, repr[i]);
        out.push(32);
    } else {
        push_bytes(out, &[32u8, 32u8, 32u8, 32u8, 32u8, 32u8, 32u8, 32u8, 32u8]);
    }
    assert(final(out)@ =~= old(out)@ + word_cell(repr@, i as int));
}

/// All bytes are ASCII.
pub open spec fn ascii(s: Seq<u8>) -> bool {
    forall|i: int| 0 <= i < s.len() ==> #[trigger] s[i] < 128
}

/// The characters of ASCII bytes.
pub open spec fn chars_of(b: Seq<u8>) -> Seq<char> {
    b.map_values(|c: u8| c as char)
}

/// `String::from_utf8` on bytes that are all ASCII: the contract claims
/// that the string holds those characters, which its documentation gives
/// for valid UTF-8, as ASCII is.
#[verifier::external_body]
fn ascii_string(b: Vec<u8>) -> (r: String)
    requires
        ascii(b@),
    ensures
        r@ == chars_of(b@),
{
    match String::from_utf8(b) {
        Ok(s) => s,
        Err(_) => String::new(),
    }
}

proof fn lemma_concat_ascii(a: Seq<u8>, b: Seq<u8>)
    requires
        ascii(a),
        ascii(b),
    ensures
        ascii(a + b),
{
    assert forall|i: int| 0 <= i < (a + b).len() implies #[trigger] (a + b)[i] < 128 by {
        if i < a.len() {
            assert((a + b)[i] == a[i]);
        } else {
            assert((a + b)[i] == b[i - a.len()]);
        }
    }
}

proof fn lemma_oct_digits_ascii(v: nat)
    ensures
        ascii(oct_digits(v)),
    decreases v,
{
    if v >= 8 {
        lemma_oct_digits_ascii(v / 8);
        lemma_concat_ascii(oct_digits(v / 8), seq![(48 + v % 8) as u8]);
        assert(oct_digits(v) == oct_digits(v / 8) + seq![(48 + v % 8) as u8]);
    }
}

proof fn lemma_dec_digits_ascii(v: nat)
    ensures
        ascii(dec_digits(v)),
    decreases v,
{
    if v >= 10 {
        lemma_dec_digits_ascii(v / 10);
        lemma_concat_ascii(dec_digits(v / 10), seq![(48 + v % 10) as u8]);
        assert(dec_digits(v) == dec_digits(v / 10) + seq![(48 + v % 10) as u8]);
    }
}

proof fn lemma_oct_fixed_ascii(v: nat, n: nat)
    ensures
        ascii(oct_fixed(v, n)),
    decreases n,
{
    if n > 0 {
        lemma_oct_fixed_ascii(v / 8, (n - 1) as nat);
        lemma_concat_ascii(oct_fixed(v / 8, (n - 1) as nat), seq![(48 + v % 8) as u8]);
        assert(oct_fixed(v, n) == oct_fixed(v / 8, (n - 1) as nat) + seq![(48 + v % 8) as u8]);
    }
}

proof fn lemma_oct_text_ascii(v: u16)
    ensures
        ascii(oct_text(v)),
        ascii(oct_word_text(v)),
{
    lemma_oct_digits_ascii(v as nat);
    lemma_oct_fixed_ascii(v as nat, 6);
    lemma_concat_ascii(seq![48u8, 111u8], oct_digits(v as nat));
    lemma_concat_ascii(seq![48u8, 111u8], oct_fixed(v as nat, 6));
}

proof fn lemma_mnemonic_ascii(m: Mnemonic)
    ensures
        ascii(mnemonic_text(m)),
{
    let s = mnemonic_text(m);
    assert forall|i: int| 0 <= i < s.len() implies #[trigger] s[i] < 128 by {
        assert(s[i] < 128);
    }
}

proof fn lemma_operand_ascii(o: Operand, pc: u16)
    ensures
        ascii(operand_text(o)),
        ascii(operand_text_at(o, pc)),
{
    lemma_oct_text_ascii(operand_val(o));
    lemma_oct_text_ascii(((2 + operand_val(o)) % 65536) as u16);
    lemma_oct_text_ascii(((pc + 2 + operand_val(o)) % 65536) as u16);
    let r = reg_text(o.reg);
    assert(ascii(r));
    let p = paren_reg(o.reg);
    lemma_concat_ascii(seq![40u8], r);
    lemma_concat_ascii(seq![40u8] + r, seq![41u8]);
    lemma_concat_ascii(p, seq![43u8]);
    lemma_concat_ascii(seq![64u8], p);
    lemma_concat_ascii(seq![64u8] + p, seq![43u8]);
    lemma_concat_ascii(seq![45u8], p);
    lemma_concat_ascii(seq![64u8, 45u8], p);
    let v = oct_text(operand_val(o));
    lemma_concat_ascii(v, p);
    lemma_concat_ascii(seq![64u8], v);
    lemma_concat_ascii(seq![64u8] + v, p);
    lemma_concat_ascii(seq![35u8], v);
    lemma_concat_ascii(seq![64u8, 35u8], v);
    let w = oct_text(((2 + operand_val(o)) % 65536) as u16);
    lemma_concat_ascii(seq![46u8, 32u8, 43u8, 32u8], w);
    lemma_concat_ascii(seq![64u8, 32u8, 46u8, 32u8, 43u8, 32u8], w);
    lemma_concat_ascii(seq![64u8, 32u8], oct_text(((pc + 2 + operand_val(o)) % 65536) as u16));
}

proof fn lemma_ins_ascii(ins: Ins, pc: u16)
    ensures
        ascii(ins_text(ins)),
        ascii(ins_text_at(ins, pc)),
{
    let mn = mnemonic_text(ins_mnemonic(ins));
    lemma_mnemonic_ascii(ins_mnemonic(ins));
    let tab = seq![9u8];
    let sep = seq![44u8, 32u8];
    let comma = seq![44u8];
    lemma_concat_ascii(mn, tab);
    match ins {
        Ins::DoubleOperand(i) => {
            lemma_operand_ascii(i.src, pc);
            lemma_operand_ascii(i.dst, pc);
            lemma_concat_ascii(mn + tab, operand_text(i.src));
            lemma_concat_ascii(mn + tab + operand_text(i.src), sep);
            lemma_concat_ascii(mn + tab + operand_text(i.src) + sep, operand_text(i.dst));
            lemma_concat_ascii(mn + tab, operand_text_at(i.src, pc));
            lemma_concat_ascii(mn + tab + operand_text_at(i.src, pc), sep);
            lemma_concat_ascii(mn + tab + operand_text_at(i.src, pc) + sep, operand_text_at(i.dst, pc));
        },
        Ins::Branch(i) => {
            if let Target::Offset(off) = i.target {
                lemma_oct_text_ascii(branch_dest(2, off));
                lemma_oct_text_ascii(branch_dest(((pc + 2) % 65536) as u16, off));
                lemma_concat_ascii(seq![46u8, 32u8, 43u8, 32u8], oct_text(branch_dest(2, off)));
            }
            lemma_concat_ascii(mn + tab, target_text(i.target));
            lemma_concat_ascii(mn + tab, target_text_at(i.target, pc));
        },
        Ins::Jmp(i) => {
            lemma_operand_ascii(i.dst, pc);
            lemma_concat_ascii(mn + tab, operand_text(i.dst));
            lemma_concat_ascii(mn + tab, operand_text_at(i.dst, pc));
        },
        Ins::Jsr(i) => {
            lemma_operand_ascii(i.dst, pc);
            let r = reg_text(i.reg);
            lemma_concat_ascii(mn + tab, r);
            lemma_concat_ascii(mn + tab + r, sep);
            lemma_concat_ascii(mn + tab + r + sep, operand_text(i.dst));
            lemma_concat_ascii(mn + tab + r, comma);
            lemma_concat_ascii(mn + tab + r + comma, operand_text_at(i.dst, pc));
        },
        Ins::Rts(i) => {
            lemma_concat_ascii(mn + tab, reg_text(i.reg));
        },
        Ins::SingleOperand(i) => {
            lemma_operand_ascii(i.dst, pc);
            lemma_concat_ascii(mn + tab, operand_text(i.dst));
            lemma_concat_ascii(mn + tab, operand_text_at(i.dst, pc));
        },
        Ins::Eis(i) => {
            lemma_operand_ascii(i.operand, pc);
            let r = reg_text(i.reg);
            lemma_concat_ascii(mn + tab, r);
            lemma_concat_ascii(mn + tab + r, sep);
            lemma_concat_ascii(mn + tab + r + sep, operand_text(i.operand));
            lemma_concat_ascii(mn + tab + r, comma);
            lemma_concat_ascii(mn + tab + r + comma, operand_text_at(i.operand, pc));
        },
        Ins::Trap(i) => {
            lemma_oct_text_ascii(i.data.spec_val());
            lemma_concat_ascii(mn + tab, oct_text(i.data.spec_val()));
        },
        _ => {},
    }
}

proof fn lemma_dis_ascii(d: (u16, Seq<u16>, Option<Ins>))
    ensures
        ascii(dis_text(d)),
{
    lemma_oct_text_ascii(d.0);
    let a = oct_word_text(d.0) + seq![9u8];
    lemma_concat_ascii(oct_word_text(d.0), seq![9u8]);
    assert forall|k: int| 0 <= k < 3 implies ascii(#[trigger] word_cell(d.1, k)) by {
        if k < d.1.len() {
            lemma_oct_text_ascii(d.1[k]);
            lemma_concat_ascii(oct_word_text(d.1[k]), seq![32u8]);
        }
    }
    lemma_concat_ascii(a, word_cell(d.1, 0));
    lemma_concat_ascii(a + word_cell(d.1, 0), word_cell(d.1, 1));
    lemma_concat_ascii(a + word_cell(d.1, 0) + word_cell(d.1, 1), word_cell(d.1, 2));
    let b = a + word_cell(d.1, 0) + word_cell(d.1, 1) + word_cell(d.1, 2);
    lemma_concat_ascii(b, seq![9u8]);
    match d.2 {
        Some(ins) => {
            lemma_ins_ascii(ins, d.0);
            lemma_concat_ascii(b + seq![9u8], ins_text_at(ins, d.0));
        },
        None => {
            assert(b + seq![9u8] + Seq::<u8>::empty() =~= b + seq![9u8]);
        },
    }
}

impl Ins {
    /// The instruction in assembler syntax; see [`ins_text`].
    pub fn display(&self) -> (r: String)
        requires
            printable_ins(*self),
        ensures
            r@ == chars_of(ins_text(*self)),
    {
        let mut out: Vec<u8> = Vec::new();
        push_ins(&mut out, self);
        proof {
            assert(out@ =~= ins_text(*self));
            lemma_ins_ascii(*self, 0);
        }
        ascii_string(out)
    }

    /// The instruction at `pc` in assembler syntax; see [`ins_text_at`].
    pub fn display_with_pc(&self, pc: u16) -> (r: String)
        requires
            printable_ins(*self),
        ensures
            r@ == chars_of(ins_text_at(*self, pc)),
    {
        self.fmt_with_pc(pc)
    }

    /// The instruction at `pc` in assembler syntax; see [`ins_text_at`].
    pub fn fmt_with_pc(&self, pc: u16) -> (r: String)
        requires
            printable_ins(*self),
        ensures
            r@ == chars_of(ins_text_at(*self, pc)),
    {
        let mut out: Vec<u8> = Vec::new();
        push_ins_at(&mut out, self, pc);
        proof {
            assert(out@ =~= ins_text_at(*self, pc));
            lemma_ins_ascii(*self, pc);
        }
        ascii_string(out)
    }
}

impl DoubleOperandIns {
    /// The instruction at `pc` in assembler syntax; see [`ins_text_at`].
    pub fn fmt_with_pc(&self, pc: u16) -> (r: String)
        requires
            printable_ins(Ins::DoubleOperand(*self)),
        ensures
            r@ == chars_of(ins_text_at(Ins::DoubleOperand(*self), pc)),
    {
        let mut out: Vec<u8> = Vec::new();
        push_double_at(&mut out, self, pc);
        proof {
            assert(out@ =~= ins_text_at(Ins::DoubleOperand(*self), pc));
            lemma_ins_ascii(Ins::DoubleOperand(*self), pc);
        }
        ascii_string(out)
    }
}

impl BranchIns {
    /// The instruction at `pc` in assembler syntax; see [`ins_text_at`].
    pub fn fmt_with_pc(&self, pc: u16) -> (r: String)
        requires
            printable_ins(Ins::Branch(*self)),
        ensures
            r@ == chars_of(ins_text_at(Ins::Branch(*self), pc)),
    {
        let mut out: Vec<u8> = Vec::new();
        push_branch_at(&mut out, self, pc);
        proof {
            assert(out@ =~= ins_text_at(Ins::Branch(*self), pc));
            lemma_ins_ascii(Ins::Branch(*self), pc);
        }
        ascii_string(out)
    }
}

impl JmpIns {
    /// The instruction at `pc` in assembler syntax; see [`ins_text_at`].
    pub fn fmt_with_pc(&self, pc: u16) -> (r: String)
        requires
            printable_ins(Ins::Jmp(*self)),
        ensures
            r@ == chars_of(ins_text_at(Ins::Jmp(*self), pc)),
    {
        let mut out: Vec<u8> = Vec::new();
        push_jmp_at(&mut out, self, pc);
        proof {
            assert(out@ =~= ins_text_at(Ins::Jmp(*self), pc));
            lemma_ins_ascii(Ins::Jmp(*self), pc);
        }
        ascii_string(out)
    }
}

impl JsrIns {
    /// The instruction at `pc` in assembler syntax; see [`ins_text_at`].
    pub fn fmt_with_pc(&self, pc: u16) -> (r: String)
        requires
            printable_ins(Ins::Jsr(*self)),
        ensures
            r@ == chars_of(ins_text_at(Ins::Jsr(*self), pc)),
    {
        let mut out: Vec<u8> = Vec::new();
        push_jsr_at(&mut out, self, pc);
        proof {
            assert(out@ =~= ins_text_at(Ins::Jsr(*self), pc));
            lemma_ins_ascii(Ins::Jsr(*self), pc);
        }
        ascii_string(out)
    }
}

impl RtsIns {
    /// The instruction at `pc` in assembler syntax; see [`ins_text_at`].
    pub fn fmt_with_pc(&self, pc: u16) -> (r: String)
        requires
            printable_ins(Ins::Rts(*self)),
        ensures
            r@ == chars_of(ins_text_at(Ins::Rts(*self), pc)),
    {
        let mut out: Vec<u8> = Vec::new();
        push_rts_at(&mut out, self, pc);
        proof {
            assert(out@ =~= ins_text_at(Ins::Rts(*self), pc));
            lemma_ins_ascii(Ins::Rts(*self), pc);
        }
        ascii_string(out)
    }
}

impl SingleOperandIns {
    /// The instruction at `pc` in assembler syntax; see [`ins_text_at`].
    pub fn fmt_with_pc(&self, pc: u16) -> (r: String)
        requires
            printable_ins(Ins::SingleOperand(*self)),
        ensures
            r@ == chars_of(ins_text_at(Ins::SingleOperand(*self), pc)),
    {
        let mut out: Vec<u8> = Vec::new();
        push_single_at(&mut out, self, pc);
        proof {
            assert(out@ =~= ins_text_at(Ins::SingleOperand(*self), pc));
            lemma_ins_ascii(Ins::SingleOperand(*self), pc);
        }
        ascii_string(out)
    }
}

impl EisIns {
    /// The instruction at `pc` in assembler syntax; see [`ins_text_at`].
    pub fn fmt_with_pc(&self, pc: u16) -> (r: String)
        requires
            printable_ins(Ins::Eis(*self)),
        ensures
            r@ == chars_of(ins_text_at(Ins::Eis(*self), pc)),
    {
        let mut out: Vec<u8> = Vec::new();
        push_eis_at(&mut out, self, pc);
        proof {
            assert(out@ =~= ins_text_at(Ins::Eis(*self), pc));
            lemma_ins_ascii(Ins::Eis(*self), pc);
        }
        ascii_string(out)
    }
}

impl CCIns {
    /// The instruction at `pc` in assembler syntax; see [`ins_text_at`].
    pub fn fmt_with_pc(&self, pc: u16) -> (r: String)
        requires
            printable_ins(Ins::CC(*self)),
        ensures
            r@ == chars_of(ins_text_at(Ins::CC(*self), pc)),
    {
        let mut out: Vec<u8> = Vec::new();
        push_cc_at(&mut out, self, pc);
        proof {
            assert(out@ =~= ins_text_at(Ins::CC(*self), pc));
            lemma_ins_ascii(Ins::CC(*self), pc);
        }
        ascii_string(out)
    }
}

impl MiscIns {
    /// The instruction at `pc` in assembler syntax; see [`ins_text_at`].
    pub fn fmt_with_pc(&self, pc: u16) -> (r: String)
        requires
            printable_ins(Ins::Misc(*self)),
        ensures
            r@ == chars_of(ins_text_at(Ins::Misc(*self), pc)),
    {
        let mut out: Vec<u8> = Vec::new();
        push_misc_at(&mut out, self, pc);
        proof {
            assert(out@ =~= ins_text_at(Ins::Misc(*self), pc));
            lemma_ins_ascii(Ins::Misc(*self), pc);
        }
        ascii_string(out)
    }
}

impl TrapIns {
    /// The instruction at `pc` in assembler syntax; see [`ins_text_at`].
    pub fn fmt_with_pc(&self, pc: u16) -> (r: String)
        requires
            printable_ins(Ins::Trap(*self)),
        ensures
            r@ == chars_of(ins_text_at(Ins::Trap(*self), pc)),
    {
        let mut out: Vec<u8> = Vec::new();
        push_trap_at(&mut out, self, pc);
        proof {
            assert(out@ =~= ins_text_at(Ins::Trap(*self), pc));
            lemma_ins_ascii(Ins::Trap(*self), pc);
        }
        ascii_string(out)
    }
}

impl Operand {
    /// The operand in assembler syntax; see [`operand_text`].
    pub fn display(&self) -> (r: String)
        requires
            printable(*self),
        ensures
            r@ == chars_of(operand_text(*self)),
    {
        let mut out: Vec<u8> = Vec::new();
        push_operand(&mut out, self);
        proof {
            assert(out@ =~= operand_text(*self));
            lemma_operand_ascii(*self, 0);
        }
        ascii_string(out)
    }

    /// The operand of the instruction at `pc`; see [`operand_text_at`].
    pub fn fmt_with_pc(&self, pc: u16) -> (r: String)
        requires
            printable(*self),
        ensures
            r@ == chars_of(operand_text_at(*self, pc)),
    {
        let mut out: Vec<u8> = Vec::new();
        push_operand_at(&mut out, self, pc);
        proof {
            assert(out@ =~= operand_text_at(*self, pc));
            lemma_operand_ascii(*self, pc);
        }
        ascii_string(out)
    }
}

/// Instructions as decoding gives them can be printed.
pub proof fn lemma_canonical_printable(ins: Ins)
    requires
        ins.canonical(),
    ensures
        printable_ins(ins),
{
}

impl Target {
    /// A resolved target as an offset from the branch; see [`target_text`].
    pub fn display(&self) -> (r: String)
        requires
            *self is Offset,
        ensures
            r@ == chars_of(target_text(*self)),
    {
        let mut out: Vec<u8> = Vec::new();
        if let Target::Offset(off) = self {
            push_bytes(&mut out, &[46u8, 32u8, 43u8, 32u8]);
            push_oct(&mut out, exec_branch_dest(2, *off));
            proof {
                assert(out@ =~= target_text(*self));
                lemma_oct_text_ascii(branch_dest(2, *off));
                lemma_concat_ascii(seq![46u8, 32u8, 43u8, 32u8], oct_text(branch_dest(2, *off)));
            }
        }
        ascii_string(out)
    }

    /// The target as the source writes it, labels named from `names`; see
    /// [`named_target_text`].
    pub fn display_named(&self, names: &Vec<Vec<u8>>) -> (r: String)
        requires
            *self matches Target::Label(id) ==> id < names@.len() && ascii(names@[id as int]@),
        ensures
            r@ == chars_of(named_target_text(*self, crate::assembler::front::names_view(names@))),
    {
        let mut out: Vec<u8> = Vec::new();
        match self {
            Target::Label(id) => {
                push_bytes(&mut out, names[*id].as_slice());
                proof {
                    assert(out@ =~= names@[*id as int]@);
                }
            },
            Target::TmpLabelF(n) => {
                push_dec_digits(&mut out, *n);
                out.push(102);
                proof {
                    lemma_dec_digits_ascii(*n as nat);
                    lemma_concat_ascii(dec_digits(*n as nat), seq![102u8]);
                    assert(out@ =~= dec_digits(*n as nat) + seq![102u8]);
                }
            },
            Target::TmpLabelB(n) => {
                push_dec_digits(&mut out, *n);
                out.push(98);
                proof {
                    lemma_dec_digits_ascii(*n as nat);
                    lemma_concat_ascii(dec_digits(*n as nat), seq![98u8]);
                    assert(out@ =~= dec_digits(*n as nat) + seq![98u8]);
                }
            },
            Target::Offset(_) => {
                return self.display();
            },
        }
        ascii_string(out)
    }

    /// A resolved target of the branch at `pc`, as the address it reaches;
    /// see [`target_text_at`].
    pub fn fmt_with_pc(&self, pc: u16) -> (r: String)
        requires
            *self is Offset,
        ensures
            r@ == chars_of(target_text_at(*self, pc)),
    {
        let mut out: Vec<u8> = Vec::new();
        if let Target::Offset(off) = self {
            let dest = exec_branch_dest(pc.wrapping_add(2), *off);
            push_oct(&mut out, dest);
            proof {
                assert(out@ =~= target_text_at(*self, pc));
                lemma_oct_text_ascii(dest);
            }
        }
        ascii_string(out)
    }
}

impl Disassembled {
    /// The line of a disassembly listing for this piece; see [`dis_text`].
    pub fn display(&self) -> (r: String)
        requires
            self.ins matches Some(i) ==> i.canonical(),
        ensures
            r@ == chars_of(dis_text(self@)),
    {
        proof {
            if self.ins is Some {
                lemma_canonical_printable(self.ins->0);
            }
        }
        let mut out: Vec<u8> = Vec::new();
        push_oct_word(&mut out, self.addr);
        out.push(9);
        push_word_cell(&mut out, &self.repr, 0);
        push_word_cell(&mut out, &self.repr, 1);
        push_word_cell(&mut out, &self.repr, 2);
        out.push(9);
        match &self.ins {
            Some(ins) => push_ins_at(&mut out, ins, self.addr),
            None => {},
        }
        proof {
            assert(out@ =~= dis_text(self@));
            lemma_dis_ascii(self@);
        }
        ascii_string(out)
    }
}


/// Each register name reads back, in the assembler, as that register.
#[verifier::rlimit(50)]
proof fn lemma_reg_reads_back(r: Reg)
    ensures
        spec_keyword(reg_text(r)) == Some(Token::Register(r)),
{
    match r {
        Reg::R0 => {
            let s = seq![114u8, 48u8];
            assert(s.len() == 2);
            assert(spec_keyword(s) == Some(Token::Register(Reg::R0)));
        },
        Reg::R1 => {
            let s = seq![114u8, 49u8];
            assert(s.len() == 2);
            assert(spec_keyword(s) == Some(Token::Register(Reg::R1)));
        },
        Reg::R2 => {
            let s = seq![114u8, 50u8];
            assert(s.len() == 2);
            assert(spec_keyword(s) == Some(Token::Register(Reg::R2)));
        },
        Reg::R3 => {
            let s = seq![114u8, 51u8];
            assert(s.len() == 2);
            assert(spec_keyword(s) == Some(Token::Register(Reg::R3)));
        },
        Reg::R4 => {
            let s = seq![114u8, 52u8];
            assert(s.len() == 2);
            assert(spec_keyword(s) == Some(Token::Register(Reg::R4)));
        },
        Reg::R5 => {
            let s = seq![114u8, 53u8];
            assert(s.len() == 2);
            assert(spec_keyword(s) == Some(Token::Register(Reg::R5)));
        },
        Reg::SP => {
            let s = seq![115u8, 112u8];
            assert(s.len() == 2);
            assert(spec_keyword(s) == Some(Token::Register(Reg::SP)));
        },
        Reg::PC => {
            let s = seq![112u8, 99u8];
            assert(s.len() == 2);
            assert(spec_keyword(s) == Some(Token::Register(Reg::PC)));
        },
    }
}

/// A register name in the source, not followed by another character of a
/// name, is lexed as that register.
proof fn lemma_lex_reg(s: Seq<u8>, i: int, r: Reg)
    requires
        0 <= i,
        i + 2 <= s.len(),
        s[i] == reg_text(r)[0],
        s[i + 1] == reg_text(r)[1],
        i + 2 == s.len() || !is_name_char(s[i + 2]),
    ensures
        lex_from(s, i) == prepend(seq![Token::Register(r)], lex_from(s, i + 2)),
{
    reveal_with_fuel(run_end, 3);
    lemma_reg_reads_back(r);
    assert(run_end(s, i, name_pred()) == i + 2);
    assert(s.subrange(i, i + 2) =~= reg_text(r));
    assert(scan(s, i) == Some((Token::Register(r), i + 2)));
}

/// A register name is two characters, the first a letter and neither a
/// parenthesis or other punctuation.
proof fn lemma_reg_text_shape(r: Reg)
    ensures
        reg_text(r).len() == 2,
        is_letter(reg_text(r)[0]),
        is_name_char(reg_text(r)[1]),
{
    match r {
        Reg::R0 => {},
        Reg::R1 => {},
        Reg::R2 => {},
        Reg::R3 => {},
        Reg::R4 => {},
        Reg::R5 => {},
        Reg::SP => {},
        Reg::PC => {},
    }
}

/// A punctuation character is lexed as its token.
proof fn lemma_lex_punct(s: Seq<u8>, i: int, t: Token)
    requires
        0 <= i < s.len(),
        (s[i] == 40 && t == Token::LParen) || (s[i] == 41 && t == Token::RParen) || (s[i] == 43
            && t == Token::Plus) || (s[i] == 45 && t == Token::Minus) || (s[i] == 64 && t
            == Token::At) || (s[i] == 44 && t == Token::Comma),
    ensures
        lex_from(s, i) == prepend(seq![t], lex_from(s, i + 1)),
{
    assert(scan(s, i) == Some((t, i + 1)));
}

/// A run of name characters ends at the first character that is none.
proof fn lemma_name_run(s: Seq<u8>, i: int, j: int)
    requires
        0 <= i <= j <= s.len(),
        forall|k: int| i <= k < j ==> is_name_char(#[trigger] s[k]),
        j == s.len() || !is_name_char(s[j]),
    ensures
        run_end(s, i, name_pred()) == j,
    decreases j - i,
{
    if i < j {
        lemma_name_run(s, i + 1, j);
    }
}

/// The tokens the text of an operand without extra word is lexed to.
spec fn operand_tokens(o: Operand) -> Seq<Token> {
    let r = Token::Register(o.reg);
    match o.mode {
        AddrMode::Gen => seq![r],
        AddrMode::Def => seq![Token::LParen, r, Token::RParen],
        AddrMode::AutoInc => seq![Token::LParen, r, Token::RParen, Token::Plus],
        AddrMode::AutoDec => seq![Token::Minus, Token::LParen, r, Token::RParen],
        AddrMode::AutoIncDef => seq![Token::At, Token::LParen, r, Token::RParen, Token::Plus],
        AddrMode::AutoDecDef => seq![Token::At, Token::Minus, Token::LParen, r, Token::RParen],
        _ => Seq::empty(),
    }
}

/// The text of an operand without extra word, standing at `k` and followed
/// by the end or a comma, is lexed to its tokens.
#[verifier::spinoff_prover]
#[verifier::rlimit(60)]
proof fn lemma_operand_lexes(s: Seq<u8>, k: int, o: Operand)
    requires
        o.extra is Absent,
        !spec_needs_extra(o.mode, o.reg),
        0 <= k,
        k + operand_text(o).len() <= s.len(),
        s.subrange(k, k + operand_text(o).len()) == operand_text(o),
        k + operand_text(o).len() == s.len() || s[k + operand_text(o).len()] == 44,
    ensures
        lex_from(s, k) == prepend(operand_tokens(o), lex_from(s, k + operand_text(o).len())),
{
    let r = o.reg;
    let x = operand_text(o);
    let n = x.len() as int;
    assert forall|q: int| 0 <= q < n implies s[k + q] == #[trigger] x[q] by {
        assert(s.subrange(k, k + n)[q] == s[k + q]);
    }
    let rest = lex_from(s, k + n);
    lemma_reg_text_shape(r);
    let rt = reg_text(r);
    match o.mode {
        AddrMode::Gen => {
            assert(x == reg_text(r));
            assert(s[k] == x[0] && s[k + 1] == x[1]);
            lemma_lex_reg(s, k, r);
            assert(operand_tokens(o) =~= seq![Token::Register(r)]);
        },
        AddrMode::Def => {
            assert(x == seq![40u8] + reg_text(r) + seq![41u8]);
            assert(x[0] == 40u8 && x[1] == rt[0] && x[2] == rt[1] && x[3] == 41u8);
            assert(s[k] == x[0] && s[k + 1] == x[1] && s[k + 2] == x[2] && s[k + 3] == x[3]);
            lemma_lex_punct(s, k + 3, Token::RParen);
            lemma_lex_reg(s, k + 1, r);
            lemma_lex_punct(s, k, Token::LParen);
            assert(seq![Token::LParen] + (seq![Token::Register(r)] + (seq![Token::RParen] + rest->Ok_0))
                =~= operand_tokens(o) + rest->Ok_0);
        },
        AddrMode::AutoInc => {
            assert(x == seq![40u8] + reg_text(r) + seq![41u8] + seq![43u8]);
            assert(x[0] == 40u8 && x[1] == rt[0] && x[2] == rt[1] && x[3] == 41u8 && x[4] == 43u8);
            assert(s[k] == x[0] && s[k + 1] == x[1] && s[k + 2] == x[2] && s[k + 3] == x[3] && s[k
                + 4] == x[4]);
            lemma_lex_punct(s, k + 4, Token::Plus);
            lemma_lex_punct(s, k + 3, Token::RParen);
            lemma_lex_reg(s, k + 1, r);
            lemma_lex_punct(s, k, Token::LParen);
            assert(seq![Token::LParen] + (seq![Token::Register(r)] + (seq![Token::RParen] + (seq![
                Token::Plus] + rest->Ok_0))) =~= operand_tokens(o) + rest->Ok_0);
        },
        AddrMode::AutoDec => {
            assert(x == seq![45u8] + (seq![40u8] + reg_text(r) + seq![41u8]));
            assert(x[0] == 45u8 && x[1] == 40u8 && x[2] == rt[0] && x[3] == rt[1] && x[4] == 41u8);
            assert(s[k] == x[0] && s[k + 1] == x[1] && s[k + 2] == x[2] && s[k + 3] == x[3] && s[k
                + 4] == x[4]);
            lemma_lex_punct(s, k + 4, Token::RParen);
            lemma_lex_reg(s, k + 2, r);
            lemma_lex_punct(s, k + 1, Token::LParen);
            lemma_lex_punct(s, k, Token::Minus);
            assert(seq![Token::Minus] + (seq![Token::LParen] + (seq![Token::Register(r)] + (seq![
                Token::RParen] + rest->Ok_0))) =~= operand_tokens(o) + rest->Ok_0);
        },
        AddrMode::AutoIncDef => {
            assert(x == seq![64u8] + (seq![40u8] + reg_text(r) + seq![41u8]) + seq![43u8]);
            assert(x[0] == 64u8 && x[1] == 40u8 && x[2] == rt[0] && x[3] == rt[1] && x[4] == 41u8
                && x[5] == 43u8);
            assert(s[k] == x[0] && s[k + 1] == x[1] && s[k + 2] == x[2] && s[k + 3] == x[3] && s[k
                + 4] == x[4] && s[k + 5] == x[5]);
            lemma_lex_punct(s, k + 5, Token::Plus);
            lemma_lex_punct(s, k + 4, Token::RParen);
            lemma_lex_reg(s, k + 2, r);
            lemma_lex_punct(s, k + 1, Token::LParen);
            lemma_lex_punct(s, k, Token::At);
            assert(seq![Token::At] + (seq![Token::LParen] + (seq![Token::Register(r)] + (seq![
                Token::RParen] + (seq![Token::Plus] + rest->Ok_0)))) =~= operand_tokens(o)
                + rest->Ok_0);
        },
        AddrMode::AutoDecDef => {
            assert(x == seq![64u8, 45u8] + (seq![40u8] + reg_text(r) + seq![41u8]));
            assert(x[0] == 64u8 && x[1] == 45u8 && x[2] == 40u8 && x[3] == rt[0] && x[4] == rt[1]
                && x[5] == 41u8);
            assert(s[k] == x[0] && s[k + 1] == x[1] && s[k + 2] == x[2] && s[k + 3] == x[3] && s[k
                + 4] == x[4] && s[k + 5] == x[5]);
            lemma_lex_punct(s, k + 5, Token::RParen);
            lemma_lex_reg(s, k + 3, r);
            lemma_lex_punct(s, k + 2, Token::LParen);
            lemma_lex_punct(s, k + 1, Token::Minus);
            lemma_lex_punct(s, k, Token::At);
            assert(seq![Token::At] + (seq![Token::Minus] + (seq![Token::LParen] + (seq![
                Token::Register(r)] + (seq![Token::RParen] + rest->Ok_0)))) =~= operand_tokens(o)
                + rest->Ok_0);
        },
        _ => {},
    }
}

/// The tokens of an operand without extra word, standing at `i` and
/// followed by the end or a comma, are parsed back to the operand.
proof fn lemma_operand_parses(t: Seq<Token>, i: int, o: Operand)
    requires
        o.extra is Absent,
        !spec_needs_extra(o.mode, o.reg),
        0 <= i,
        i + operand_tokens(o).len() <= t.len(),
        t.subrange(i, i + operand_tokens(o).len()) == operand_tokens(o),
        i + operand_tokens(o).len() == t.len() || t[i + operand_tokens(o).len()] == Token::Comma,
    ensures
        p_operand(t, i) == Some((o, i + operand_tokens(o).len())),
{
    let x = operand_tokens(o);
    let n = x.len() as int;
    assert forall|q: int| 0 <= q < n implies t[i + q] == #[trigger] x[q] by {
        assert(t.subrange(i, i + n)[q] == t[i + q]);
    }
    let r = Token::Register(o.reg);
    assert(o == Operand { mode: o.mode, reg: o.reg, extra: Extra::Absent });
    match o.mode {
        AddrMode::Gen => {
            assert(t[i] == x[0] && x[0] == r);
        },
        AddrMode::Def => {
            assert(t[i] == x[0] && t[i + 1] == x[1] && t[i + 2] == x[2]);
            assert(p_paren_reg(t, i) == Some((o.reg, i + 3)));
        },
        AddrMode::AutoInc => {
            assert(t[i] == x[0] && t[i + 1] == x[1] && t[i + 2] == x[2] && t[i + 3] == x[3]);
            assert(p_paren_reg(t, i) == Some((o.reg, i + 3)));
        },
        AddrMode::AutoDec => {
            assert(t[i] == x[0] && t[i + 1] == x[1] && t[i + 2] == x[2] && t[i + 3] == x[3]);
            assert(p_paren_reg(t, i + 1) == Some((o.reg, i + 4)));
        },
        AddrMode::AutoIncDef => {
            assert(t[i] == x[0] && t[i + 1] == x[1] && t[i + 2] == x[2] && t[i + 3] == x[3] && t[i
                + 4] == x[4]);
            assert(p_paren_reg(t, i + 1) == Some((o.reg, i + 4)));
            assert(p_deferred(t, i + 1) == Some((o, i + 5)));
        },
        AddrMode::AutoDecDef => {
            assert(t[i] == x[0] && t[i + 1] == x[1] && t[i + 2] == x[2] && t[i + 3] == x[3] && t[i
                + 4] == x[4]);
            assert(p_paren_reg(t, i + 2) == Some((o.reg, i + 5)));
            assert(p_deferred(t, i + 1) == Some((o, i + 5)));
        },
        _ => {},
    }
}

/// An operand that carries no extra word prints as text the assembler reads
/// back as the same operand: lexing the text gives tokens from which the
/// assembler's operand parser takes exactly that operand, using them all.
pub proof fn lemma_operand_reads_back(o: Operand)
    requires
        o.extra is Absent,
        !spec_needs_extra(o.mode, o.reg),
    ensures
        lex_from(operand_text(o), 0) matches Ok(t) && p_operand(t, 0) == Some((o, t.len() as int)),
{
    let s = operand_text(o);
    assert(s.subrange(0, s.len() as int) =~= s);
    lemma_operand_lexes(s, 0, o);
    assert(lex_from(s, s.len() as int) == Ok::<Seq<Token>, usize>(Seq::empty()));
    let t = operand_tokens(o);
    assert(t + Seq::<Token>::empty() =~= t);
    assert(t.subrange(0, t.len() as int) =~= t);
    lemma_operand_parses(t, 0, o);
}

/// The name of an instruction is made of lower-case letters.
proof fn lemma_mnemonic_letters(m: Mnemonic)
    ensures
        mnemonic_text(m).len() > 0,
        forall|q: int| 0 <= q < mnemonic_text(m).len() ==> is_name_char(#[trigger] mnemonic_text(m)[q]),
{
    let x = mnemonic_text(m);
    assert forall|q: int| 0 <= q < x.len() implies is_name_char(#[trigger] x[q]) by {
        assert(97 <= x[q] <= 122);
    }
}

/// The name of an instruction, followed by the end or a tab, is lexed as
/// that instruction's name.
proof fn lemma_lex_mnemonic(s: Seq<u8>, m: Mnemonic)
    requires
        mnemonic_text(m).len() <= s.len(),
        s.subrange(0, mnemonic_text(m).len() as int) == mnemonic_text(m),
        mnemonic_text(m).len() == s.len() || s[mnemonic_text(m).len() as int] == 9,
    ensures
        lex_from(s, 0) == prepend(
            seq![Token::Mnemonic(m)],
            lex_from(s, mnemonic_text(m).len() as int),
        ),
{
    let x = mnemonic_text(m);
    let n = x.len() as int;
    lemma_mnemonic_letters(m);
    assert forall|q: int| 0 <= q < n implies is_name_char(#[trigger] s[q]) by {
        assert(s.subrange(0, n)[q] == s[q]);
        assert(is_name_char(x[q]));
    }
    assert(is_letter(s[0]));
    lemma_name_run(s, 0, n);
    lemma_mnemonic_reads_back(m);
    assert(scan(s, 0) == Some((Token::Mnemonic(m), n)));
}

/// The instructions whose text is read back: those other than the
/// extended set, branches and traps, whose operands carry no extra word.
pub open spec fn plain_register_ins(ins: Ins) -> bool {
    let plain = |o: Operand| o.extra is Absent && !spec_needs_extra(o.mode, o.reg);
    match ins {
        Ins::DoubleOperand(i) => plain(i.src) && plain(i.dst),
        Ins::Jmp(i) => plain(i.dst),
        Ins::Jsr(i) => plain(i.dst),
        Ins::Rts(_) => true,
        Ins::SingleOperand(i) => plain(i.dst),
        Ins::CC(_) => true,
        Ins::Misc(_) => true,
        _ => false,
    }
}

proof fn lemma_ins_reads_back_none(ins: Ins)
    requires
        plain_register_ins(ins),
        ins is CC || ins is Misc,
    ensures
        lex_from(ins_text(ins), 0) matches Ok(t) && t.len() >= 1 && t[0] == Token::Mnemonic(
            ins_mnemonic(ins),
        ) && p_ins(t, 1, ins_mnemonic(ins)) == Some((ins, t.len() as int)),
{
    let s = ins_text(ins);
    let m = ins_mnemonic(ins);
    let mn = mnemonic_text(m);
    let n = mn.len() as int;
    let e = Seq::<Token>::empty();
    assert(lex_from(s, s.len() as int) == Ok::<Seq<Token>, usize>(e));

    assert(s == mn);
    assert(s.subrange(0, n) =~= mn);
    lemma_lex_mnemonic(s, m);
    let t = seq![Token::Mnemonic(m)] + e;
    assert(lex_from(s, 0) == Ok::<Seq<Token>, usize>(t));
    assert(t.len() == 1);
}

proof fn lemma_ins_reads_back_rts(ins: Ins)
    requires
        plain_register_ins(ins),
        ins is Rts,
    ensures
        lex_from(ins_text(ins), 0) matches Ok(t) && t.len() >= 1 && t[0] == Token::Mnemonic(
            ins_mnemonic(ins),
        ) && p_ins(t, 1, ins_mnemonic(ins)) == Some((ins, t.len() as int)),
{
    let s = ins_text(ins);
    let m = ins_mnemonic(ins);
    let mn = mnemonic_text(m);
    let n = mn.len() as int;
    let e = Seq::<Token>::empty();
    assert(lex_from(s, s.len() as int) == Ok::<Seq<Token>, usize>(e));
    let i = ins->Rts_0;

    assert(s == mn + seq![9u8] + reg_text(i.reg));
    assert(s.subrange(0, n) =~= mn);
    lemma_lex_mnemonic(s, m);
    assert(lex_from(s, n) == lex_from(s, n + 1));
    lemma_lex_reg(s, n + 1, i.reg);
    let t = seq![Token::Mnemonic(m)] + (seq![Token::Register(i.reg)] + e);
    assert(lex_from(s, 0) == Ok::<Seq<Token>, usize>(t));
    assert(t[1] == Token::Register(i.reg));
}

proof fn lemma_ins_reads_back_jmp(ins: Ins)
    requires
        plain_register_ins(ins),
        ins is Jmp,
    ensures
        lex_from(ins_text(ins), 0) matches Ok(t) && t.len() >= 1 && t[0] == Token::Mnemonic(
            ins_mnemonic(ins),
        ) && p_ins(t, 1, ins_mnemonic(ins)) == Some((ins, t.len() as int)),
{
    let s = ins_text(ins);
    let m = ins_mnemonic(ins);
    let mn = mnemonic_text(m);
    let n = mn.len() as int;
    let e = Seq::<Token>::empty();
    assert(lex_from(s, s.len() as int) == Ok::<Seq<Token>, usize>(e));
    let i = ins->Jmp_0;

    let x = operand_text(i.dst);
    assert(s == mn + seq![9u8] + x);
    assert(s.subrange(0, n) =~= mn);
    assert(s.subrange(n + 1, n + 1 + x.len()) =~= x);
    lemma_lex_mnemonic(s, m);
    assert(lex_from(s, n) == lex_from(s, n + 1));
    lemma_operand_lexes(s, n + 1, i.dst);
    let ot = operand_tokens(i.dst);
    let t = seq![Token::Mnemonic(m)] + (ot + e);
    assert(lex_from(s, 0) == Ok::<Seq<Token>, usize>(t));
    assert(t.subrange(1, 1 + ot.len() as int) =~= ot);
    lemma_operand_parses(t, 1, i.dst);
}

proof fn lemma_ins_reads_back_single(ins: Ins)
    requires
        plain_register_ins(ins),
        ins is SingleOperand,
    ensures
        lex_from(ins_text(ins), 0) matches Ok(t) && t.len() >= 1 && t[0] == Token::Mnemonic(
            ins_mnemonic(ins),
        ) && p_ins(t, 1, ins_mnemonic(ins)) == Some((ins, t.len() as int)),
{
    let s = ins_text(ins);
    let m = ins_mnemonic(ins);
    let mn = mnemonic_text(m);
    let n = mn.len() as int;
    let e = Seq::<Token>::empty();
    assert(lex_from(s, s.len() as int) == Ok::<Seq<Token>, usize>(e));
    let i = ins->SingleOperand_0;

    let x = operand_text(i.dst);
    assert(s == mn + seq![9u8] + x);
    assert(s.subrange(0, n) =~= mn);
    assert(s.subrange(n + 1, n + 1 + x.len()) =~= x);
    lemma_lex_mnemonic(s, m);
    assert(lex_from(s, n) == lex_from(s, n + 1));
    lemma_operand_lexes(s, n + 1, i.dst);
    let ot = operand_tokens(i.dst);
    let t = seq![Token::Mnemonic(m)] + (ot + e);
    assert(lex_from(s, 0) == Ok::<Seq<Token>, usize>(t));
    assert(t.subrange(1, 1 + ot.len() as int) =~= ot);
    lemma_operand_parses(t, 1, i.dst);
}

#[verifier::spinoff_prover]
#[verifier::rlimit(60)]
proof fn lemma_ins_reads_back_jsr(ins: Ins)
    requires
        plain_register_ins(ins),
        ins is Jsr,
    ensures
        lex_from(ins_text(ins), 0) matches Ok(t) && t.len() >= 1 && t[0] == Token::Mnemonic(
            ins_mnemonic(ins),
        ) && p_ins(t, 1, ins_mnemonic(ins)) == Some((ins, t.len() as int)),
{
    let s = ins_text(ins);
    let m = ins_mnemonic(ins);
    let mn = mnemonic_text(m);
    let n = mn.len() as int;
    let e = Seq::<Token>::empty();
    assert(lex_from(s, s.len() as int) == Ok::<Seq<Token>, usize>(e));
    let i = ins->Jsr_0;

    let x = operand_text(i.dst);
    assert(s == mn + seq![9u8] + reg_text(i.reg) + seq![44u8, 32u8] + x);
    assert(s.subrange(0, n) =~= mn);
    assert(s.subrange(n + 5, n + 5 + x.len()) =~= x);
    lemma_lex_mnemonic(s, m);
    assert(lex_from(s, n) == lex_from(s, n + 1));
    lemma_lex_reg(s, n + 1, i.reg);
    lemma_lex_punct(s, n + 3, Token::Comma);
    assert(lex_from(s, n + 4) == lex_from(s, n + 5));
    lemma_operand_lexes(s, n + 5, i.dst);
    let ot = operand_tokens(i.dst);
    let t = seq![Token::Mnemonic(m)] + (seq![Token::Register(i.reg)] + (seq![Token::Comma] + (
    ot + e)));
    assert(lex_from(s, 0) == Ok::<Seq<Token>, usize>(t));
    assert(t.subrange(3, 3 + ot.len() as int) =~= ot);
    assert(t[1] == Token::Register(i.reg) && t[2] == Token::Comma);
    lemma_operand_parses(t, 3, i.dst);
}

#[verifier::spinoff_prover]
#[verifier::rlimit(80)]
proof fn lemma_ins_reads_back_double(ins: Ins)
    requires
        plain_register_ins(ins),
        ins is DoubleOperand,
    ensures
        lex_from(ins_text(ins), 0) matches Ok(t) && t.len() >= 1 && t[0] == Token::Mnemonic(
            ins_mnemonic(ins),
        ) && p_ins(t, 1, ins_mnemonic(ins)) == Some((ins, t.len() as int)),
{
    let s = ins_text(ins);
    let m = ins_mnemonic(ins);
    let mn = mnemonic_text(m);
    let n = mn.len() as int;
    let e = Seq::<Token>::empty();
    assert(lex_from(s, s.len() as int) == Ok::<Seq<Token>, usize>(e));
    let i = ins->DoubleOperand_0;

    let x = operand_text(i.src);
    let y = operand_text(i.dst);
    let a = n + 1 + x.len();
    assert(s == mn + seq![9u8] + x + seq![44u8, 32u8] + y);
    assert(s.subrange(0, n) =~= mn);
    assert(s.subrange(n + 1, a) =~= x);
    assert(s.subrange(a + 2, a + 2 + y.len()) =~= y);
    assert(s[a] == 44u8 && s[a + 1] == 32u8);
    lemma_lex_mnemonic(s, m);
    assert(lex_from(s, n) == lex_from(s, n + 1));
    lemma_operand_lexes(s, n + 1, i.src);
    lemma_lex_punct(s, a, Token::Comma);
    assert(lex_from(s, a + 1) == lex_from(s, a + 2));
    lemma_operand_lexes(s, a + 2, i.dst);
    let xt = operand_tokens(i.src);
    let yt = operand_tokens(i.dst);
    let t = seq![Token::Mnemonic(m)] + (xt + (seq![Token::Comma] + (yt + e)));
    assert(lex_from(s, 0) == Ok::<Seq<Token>, usize>(t));
    let b: int = 1 + xt.len() as int;
    assert(t.subrange(1, b) =~= xt);
    assert(t[b] == Token::Comma);
    assert(t.subrange(b + 1, b + 1 + yt.len() as int) =~= yt);
    lemma_operand_parses(t, 1, i.src);
    lemma_operand_parses(t, b + 1, i.dst);
}

/// Printing then reading back gives the instruction: the text of an
/// instruction whose operands carry no extra word (outside the extended
/// set, branches and traps) lexes to its name followed by tokens from
/// which the assembler's instruction parser takes exactly that
/// instruction, using them all.
pub proof fn lemma_ins_reads_back(ins: Ins)
    requires
        plain_register_ins(ins),
    ensures
        lex_from(ins_text(ins), 0) matches Ok(t) && t.len() >= 1 && t[0] == Token::Mnemonic(
            ins_mnemonic(ins),
        ) && p_ins(t, 1, ins_mnemonic(ins)) == Some((ins, t.len() as int)),
{
    match ins {
        Ins::CC(_) | Ins::Misc(_) => lemma_ins_reads_back_none(ins),
        Ins::Rts(_) => lemma_ins_reads_back_rts(ins),
        Ins::Jmp(_) => lemma_ins_reads_back_jmp(ins),
        Ins::SingleOperand(_) => lemma_ins_reads_back_single(ins),
        Ins::Jsr(_) => lemma_ins_reads_back_jsr(ins),
        Ins::DoubleOperand(_) => lemma_ins_reads_back_double(ins),
        _ => {},
    }
}

/// The digits printed for a number are octal digits that the assembler's
/// lexer reads back, in base eight, as the number.
pub proof fn lemma_oct_digits_read_back(v: nat)
    ensures
        all_octal(oct_digits(v)),
        forall|q: int| 0 <= q < oct_digits(v).len() ==> is_digit(#[trigger] oct_digits(v)[q]),
        digits_value(oct_digits(v), 8) == v,
    decreases v,
{
    let d = oct_digits(v);
    if v >= 8 {
        lemma_oct_digits_read_back(v / 8);
        let p = oct_digits(v / 8);
        assert(d == p.push((48 + v % 8) as u8));
        assert(d.drop_last() =~= p);
        assert(forall|q: int| 0 <= q < p.len() ==> d[q] == p[q]);
        assert(d.last() == (48 + v % 8) as u8);
        assert(digits_value(d, 8) == digits_value(p, 8) * 8 + (v % 8));
        assert((v / 8) * 8 + v % 8 == v);
    } else {
        assert(d.drop_last() =~= Seq::<u8>::empty());
        assert(d.last() == (48 + v) as u8);
        assert(digits_value(d.drop_last(), 8) == 0);
        assert(digits_value(d, 8) == v);
    }
}

/// Eight to the power `n`.
pub open spec fn eight_pow(n: nat) -> nat
    decreases n,
{
    if n == 0 {
        1
    } else {
        8 * eight_pow((n - 1) as nat)
    }
}

/// The `n` digits printed for a value below `8^n` are octal digits that the
/// assembler's lexer reads back, in base eight, as the value; so a word
/// printed with six digits (addresses and words of a listing) reads back
/// as itself.
pub proof fn lemma_oct_fixed_read_back(v: nat, n: nat)
    requires
        v < eight_pow(n),
    ensures
        all_octal(oct_fixed(v, n)),
        oct_fixed(v, n).len() == n,
        digits_value(oct_fixed(v, n), 8) == v,
    decreases n,
{
    let d = oct_fixed(v, n);
    if n == 0 {
        assert(v == 0);
    } else {
        assert(v / 8 < eight_pow((n - 1) as nat));
        lemma_oct_fixed_read_back(v / 8, (n - 1) as nat);
        let p = oct_fixed(v / 8, (n - 1) as nat);
        assert(d == p.push((48 + v % 8) as u8));
        assert(d.drop_last() =~= p);
        assert(forall|q: int| 0 <= q < p.len() ==> d[q] == p[q]);
        assert(d.last() == (48 + v % 8) as u8);
        assert(digits_value(d, 8) == digits_value(p, 8) * 8 + (v % 8));
        assert((v / 8) * 8 + v % 8 == v);
    }
}

/// Every word fits in the six octal digits of a listing.
pub proof fn lemma_word_fits_six_digits(v: u16)
    ensures
        digits_value(oct_fixed(v as nat, 6), 8) == v,
{
    reveal_with_fuel(eight_pow, 7);
    assert(eight_pow(6) == 262144);
    lemma_oct_fixed_read_back(v as nat, 6);
}

/// The address a listing prints for a branch at `pc` is where the emulator
/// goes when it takes that branch, its PC then being at the word after the
/// branch.
pub proof fn lemma_branch_text_is_destination(m: Machine, op: BranchOpcode, off: u8, pc: u16)
    requires
        m.regs.len() == 8,
        reg_of(m, Reg::PC) == (pc + 2) % 65536,
        branch_taken(op, m.status),
    ensures
        spec_exec_branch(m, BranchIns { op, target: Target::Offset(off) }) matches Some(m2)
            && target_text_at(Target::Offset(off), pc) == oct_text(reg_of(m2, Reg::PC)),
{
    assert(branch_disp(off) == 2 * sext8(off));
}

} // verus!
