//! Decoding of instructions from their binary form.
use vstd::prelude::*;
use vstd::arithmetic::div_mod::{lemma_fundamental_div_mod, lemma_fundamental_div_mod_converse, lemma_div_denominator, lemma_mod_bound};
use crate::isa::{spec_addr_mode, lemma_reg_code_roundtrip, lemma_mode_code_roundtrip};
use crate::isa::{
    spec_decode_operand, spec_reg, Atom, BranchIns, BranchOpcode, CCIns, CCOpcode,
    DoubleOperandIns, DoubleOperandOpcode, EisIns, EisOpcode, Expr, Ins, JmpIns, JmpOpcode,
    JsrIns, JsrOpcode, MiscIns, MiscOpcode, Operand, Reg, RtsIns, RtsOpcode, SingleOperandIns,
    SingleOperandOpcode, Target, TrapIns, TrapOpcode,
};

verus! {

/// Decoding of a double-operand instruction word `ws[0]` with opcode `op`.
pub open spec fn spec_decode_double(op: DoubleOperandOpcode, ws: Seq<u16>) -> Option<Ins> {
    let w = ws[0];
    match spec_decode_operand(((w / 64) % 64) as u16, ws, 1) {
        Some(src) => match spec_decode_operand(w % 64, ws, 1 + src.spec_num_extra()) {
            Some(dst) => Some(Ins::DoubleOperand(DoubleOperandIns { op, src, dst })),
            None => None,
        },
        None => None,
    }
}

/// Decoding of the first words of `ws`, trying the instruction formats in a
/// fixed order: double-operand, branch, jmp, jsr, rts, single-operand, EIS,
/// condition codes, miscellaneous, trap. `None` if no format's opcode
/// matches, or if the matching instruction needs more words than `ws` holds.
pub open spec fn spec_decode(ws: Seq<u16>) -> Option<Ins>
    recommends
        ws.len() >= 1,
{
    let w = ws[0];
    if let Some(op) = DoubleOperandOpcode::spec_from_code(w / 4096) {
        spec_decode_double(op, ws)
    } else if let Some(op) = BranchOpcode::spec_from_code(w / 256) {
        Some(Ins::Branch(BranchIns { op, target: Target::Offset((w % 256) as u8) }))
    } else if let Some(op) = JmpOpcode::spec_from_code(w / 64) {
        match spec_decode_operand(w % 64, ws, 1) {
            Some(dst) => Some(Ins::Jmp(JmpIns { op, dst })),
            None => None,
        }
    } else if let Some(op) = JsrOpcode::spec_from_code(w / 512) {
        match spec_decode_operand(w % 64, ws, 1) {
            Some(dst) => Some(Ins::Jsr(JsrIns { op, reg: spec_reg(((w / 64) % 8) as u16), dst })),
            None => None,
        }
    } else if let Some(op) = RtsOpcode::spec_from_code(w / 8) {
        Some(Ins::Rts(RtsIns { op, reg: spec_reg(w % 8) }))
    } else if let Some(op) = SingleOperandOpcode::spec_from_code(w / 64) {
        match spec_decode_operand(w % 64, ws, 1) {
            Some(dst) => Some(Ins::SingleOperand(SingleOperandIns { op, dst })),
            None => None,
        }
    } else if let Some(op) = EisOpcode::spec_from_code(w / 512) {
        match spec_decode_operand(w % 64, ws, 1) {
            Some(operand) => Some(
                Ins::Eis(EisIns { op, reg: spec_reg(((w / 64) % 8) as u16), operand }),
            ),
            None => None,
        }
    } else if let Some(op) = CCOpcode::spec_from_code(w) {
        Some(Ins::CC(CCIns { op }))
    } else if let Some(op) = MiscOpcode::spec_from_code(w) {
        Some(Ins::Misc(MiscIns { op }))
    } else if let Some(op) = TrapOpcode::spec_from_code(w / 256) {
        Some(Ins::Trap(TrapIns { op, data: Expr::Atom(Atom::Val(w % 256)) }))
    } else {
        None
    }
}

fn reg_of(v: u16) -> (r: Reg)
    requires
        v < 8,
    ensures
        r == spec_reg(v),
{
    match Reg::from_u16(v) {
        Some(r) => r,
        None => Reg::R0,
    }
}

fn decode_double_operand_ins(op: DoubleOperandOpcode, input: &[u16]) -> (r: Option<Ins>)
    requires
        input@.len() >= 1,
    ensures
        r == spec_decode_double(op, input@),
{
    let w = input[0];
    let src = match Operand::decode((w / 64) % 64, input, 1) {
        Some(s) => s,
        None => return None,
    };
    let n = src.num_extra();
    let dst = match Operand::decode(w % 64, input, 1 + n as usize) {
        Some(d) => d,
        None => return None,
    };
    Some(Ins::DoubleOperand(DoubleOperandIns { op, src, dst }))
}

/// Decoding without the extended instruction set: words that would decode
/// as `mul`, `div`, `ash`, `ashc` or `xor` encode no instruction here.
pub open spec fn spec_decode_common(ws: Seq<u16>) -> Option<Ins>
    recommends
        ws.len() >= 1,
{
    match spec_decode(ws) {
        Some(Ins::Eis(_)) => None,
        r => r,
    }
}

/// Whether `ws` holds every extra word that the instruction at its start
/// needs (decoding without the extended set): where two more words would
/// make it decode, it decodes as it is.
pub open spec fn complete(ws: Seq<u16>) -> bool {
    spec_decode_common(ws + seq![0u16, 0u16]) is Some ==> spec_decode_common(ws) is Some
}

/// Three words hold every instruction: an operand's extra word is the
/// second or the third.
pub proof fn lemma_three_words_complete(ws: Seq<u16>)
    requires
        ws.len() >= 3,
    ensures
        complete(ws),
{
    let p = ws + seq![0u16, 0u16];
    assert(p[0] == ws[0]);
    assert(p[1] == ws[1]);
    assert(p[2] == ws[2]);
}

/// Decodes the instruction at the start of `input`, without the extended
/// instruction set; see [`spec_decode_common`]. This is the decoding the
/// emulator runs on. `input` must hold the instruction's extra words.
pub fn decode(input: &[u16]) -> (r: Option<Ins>)
    requires
        input@.len() >= 1,
        complete(input@),
    ensures
        r == spec_decode_common(input@),
{
    match decode_full(input) {
        Some(Ins::Eis(_)) => None,
        r => r,
    }
}

/// Decodes the instruction at the start of `input`; see [`spec_decode`].
fn decode_full(input: &[u16]) -> (r: Option<Ins>)
    requires
        input@.len() >= 1,
    ensures
        r == spec_decode(input@),
{
    let w = input[0];
    if let Some(op) = DoubleOperandOpcode::from_code(w / 4096) {
        decode_double_operand_ins(op, input)
    } else if let Some(op) = BranchOpcode::from_code(w / 256) {
        Some(Ins::Branch(BranchIns { op, target: Target::Offset((w % 256) as u8) }))
    } else if let Some(op) = JmpOpcode::from_code(w / 64) {
        match Operand::decode(w % 64, input, 1) {
            Some(dst) => Some(Ins::Jmp(JmpIns { op, dst })),
            None => None,
        }
    } else if let Some(op) = JsrOpcode::from_code(w / 512) {
        match Operand::decode(w % 64, input, 1) {
            Some(dst) => Some(Ins::Jsr(JsrIns { op, reg: reg_of((w / 64) % 8), dst })),
            None => None,
        }
    } else if let Some(op) = RtsOpcode::from_code(w / 8) {
        Some(Ins::Rts(RtsIns { op, reg: reg_of(w % 8) }))
    } else if let Some(op) = SingleOperandOpcode::from_code(w / 64) {
        match Operand::decode(w % 64, input, 1) {
            Some(dst) => Some(Ins::SingleOperand(SingleOperandIns { op, dst })),
            None => None,
        }
    } else if let Some(op) = EisOpcode::from_code(w / 512) {
        match Operand::decode(w % 64, input, 1) {
            Some(operand) => Some(Ins::Eis(EisIns { op, reg: reg_of((w / 64) % 8), operand })),
            None => None,
        }
    } else if let Some(op) = CCOpcode::from_code(w) {
        Some(Ins::CC(CCIns { op }))
    } else if let Some(op) = MiscOpcode::from_code(w) {
        Some(Ins::Misc(MiscIns { op }))
    } else if let Some(op) = TrapOpcode::from_code(w / 256) {
        Some(Ins::Trap(TrapIns { op, data: Expr::Atom(Atom::Val(w % 256)) }))
    } else {
        None
    }
}

impl Ins {
    /// Decodes the instruction at the start of `input`, the extended
    /// instruction set included; see [`spec_decode`]. This is the decoding
    /// the disassembler runs on.
    pub fn decode(input: &[u16]) -> (r: Option<Ins>)
        requires
            input@.len() >= 1,
        ensures
            r == spec_decode(input@),
    {
        decode_full(input)
    }
}


/// `(hi * k + lo)` splits back into `hi` and `lo`.
proof fn lemma_split(hi: int, k: int, lo: int)
    requires
        k > 0,
        0 <= lo < k,
    ensures
        (hi * k + lo) / k == hi,
        (hi * k + lo) % k == lo,
{
    lemma_fundamental_div_mod_converse(hi * k + lo, k, hi, lo);
}

/// Dividing `hi * k + lo` by a multiple `k * m` of `k` drops `lo`.
proof fn lemma_div_coarse(hi: int, k: int, lo: int, m: int)
    requires
        k > 0,
        m > 0,
        hi >= 0,
        0 <= lo < k,
    ensures
        (hi * k + lo) / (k * m) == hi / m,
{
    lemma_split(hi, k, lo);
    lemma_div_denominator(hi * k + lo, k, m);
}

/// Dividing `hi * (m * d) + lo` by a divisor `d` of the scale.
proof fn lemma_div_fine(hi: int, m: int, d: int, lo: int)
    requires
        m > 0,
        d > 0,
        hi >= 0,
        0 <= lo < m * d,
    ensures
        (hi * (m * d) + lo) / d == hi * m + lo / d,
{
    lemma_fundamental_div_mod(lo, d);
    lemma_mod_bound(lo, d);
    assert(hi * (m * d) + lo == (hi * m + lo / d) * d + lo % d) by (nonlinear_arith)
        requires
            lo == d * (lo / d) + lo % d,
    ;
    lemma_split(hi * m + lo / d, d, lo % d);
}

/// An operand in canonical form decodes back from its six bits and the word
/// at `idx`.
pub proof fn lemma_decode_operand_roundtrip(o: Operand, ws: Seq<u16>, idx: int)
    requires
        o.canonical(),
        o.spec_needs_extra() ==> 0 <= idx < ws.len() && ws[idx] == o.extra.spec_val(),
    ensures
        spec_decode_operand(o.spec_encode(), ws, idx) == Some(o),
{
    lemma_split(o.mode.spec_code() as int, 8, o.reg.spec_code() as int);
    lemma_reg_code_roundtrip(o.reg);
    lemma_mode_code_roundtrip(o.mode);
}


proof fn lemma_decode_encode_double_operand(i: DoubleOperandIns, rest: Seq<u16>)
    requires
        Ins::DoubleOperand(i).canonical(),
    ensures
        spec_decode(Ins::DoubleOperand(i).spec_words() + rest) == Some(Ins::DoubleOperand(i)),
{
    let ins = Ins::DoubleOperand(i);
    let ws = ins.spec_words() + rest;
    let w = ins.spec_first_word();
    assert(ws[0] == w);
            let c = i.op.spec_code() as int;
            let s = i.src.spec_encode() as int;
            let d = i.dst.spec_encode() as int;
            assert(w == (c * 64 + s) * 64 + d);
            lemma_split(c * 64 + s, 64, d);
            lemma_split(c, 64, s);
            lemma_div_coarse(c * 64 + s, 64, d, 64);
            lemma_split(c, 64, s);
            assert(w / 4096 == c);
            lemma_decode_operand_roundtrip(i.src, ws, 1);
            lemma_decode_operand_roundtrip(i.dst, ws, 1 + i.src.spec_num_extra());
}

proof fn lemma_decode_encode_branch(i: BranchIns, rest: Seq<u16>)
    requires
        Ins::Branch(i).canonical(),
    ensures
        spec_decode(Ins::Branch(i).spec_words() + rest) == Some(Ins::Branch(i)),
{
    let ins = Ins::Branch(i);
    let ws = ins.spec_words() + rest;
    let w = ins.spec_first_word();
    assert(ws[0] == w);
            let c = i.op.spec_code() as int;
            let off = i.target->Offset_0 as int;
            lemma_split(c, 256, off);
            lemma_div_coarse(c, 256, off, 16);
}

proof fn lemma_decode_encode_jmp(i: JmpIns, rest: Seq<u16>)
    requires
        Ins::Jmp(i).canonical(),
    ensures
        spec_decode(Ins::Jmp(i).spec_words() + rest) == Some(Ins::Jmp(i)),
{
    let ins = Ins::Jmp(i);
    let ws = ins.spec_words() + rest;
    let w = ins.spec_first_word();
    assert(ws[0] == w);
            let d = i.dst.spec_encode() as int;
            lemma_split(1, 64, d);
            lemma_div_coarse(1, 64, d, 64);
            lemma_div_coarse(1, 64, d, 4);
            lemma_decode_operand_roundtrip(i.dst, ws, 1);
}

proof fn lemma_decode_encode_jsr(i: JsrIns, rest: Seq<u16>)
    requires
        Ins::Jsr(i).canonical(),
    ensures
        spec_decode(Ins::Jsr(i).spec_words() + rest) == Some(Ins::Jsr(i)),
{
    let ins = Ins::Jsr(i);
    let ws = ins.spec_words() + rest;
    let w = ins.spec_first_word();
    assert(ws[0] == w);
            let r = i.reg.spec_code() as int;
            let d = i.dst.spec_encode() as int;
            assert(w == (4 * 8 + r) * 64 + d);
            lemma_split(4 * 8 + r, 64, d);
            lemma_split(4, 8, r);
            lemma_div_coarse(4 * 8 + r, 64, d, 8);
            lemma_div_coarse(4 * 8 + r, 64, d, 4);
            lemma_div_coarse(4 * 8 + r, 64, d, 64);
            lemma_reg_code_roundtrip(i.reg);
            lemma_decode_operand_roundtrip(i.dst, ws, 1);
}

proof fn lemma_decode_encode_rts(i: RtsIns, rest: Seq<u16>)
    requires
        Ins::Rts(i).canonical(),
    ensures
        spec_decode(Ins::Rts(i).spec_words() + rest) == Some(Ins::Rts(i)),
{
    let ins = Ins::Rts(i);
    let ws = ins.spec_words() + rest;
    let w = ins.spec_first_word();
    assert(ws[0] == w);
            let r = i.reg.spec_code() as int;
            lemma_split(16, 8, r);
            lemma_div_coarse(16, 8, r, 8);
            lemma_div_coarse(16, 8, r, 32);
            lemma_div_coarse(16, 8, r, 64);
            lemma_div_coarse(16, 8, r, 512);
            lemma_reg_code_roundtrip(i.reg);
}

proof fn lemma_decode_encode_single_operand(i: SingleOperandIns, rest: Seq<u16>)
    requires
        Ins::SingleOperand(i).canonical(),
    ensures
        spec_decode(Ins::SingleOperand(i).spec_words() + rest) == Some(Ins::SingleOperand(i)),
{
    let ins = Ins::SingleOperand(i);
    let ws = ins.spec_words() + rest;
    let w = ins.spec_first_word();
    assert(ws[0] == w);
            let c = i.op.spec_code() as int;
            let d = i.dst.spec_encode() as int;
            lemma_split(c, 64, d);
            lemma_div_coarse(c, 64, d, 64);
            lemma_div_coarse(c, 64, d, 4);
            lemma_div_coarse(c, 64, d, 8);
            lemma_div_fine(c, 8, 8, d);
            lemma_decode_operand_roundtrip(i.dst, ws, 1);
}

proof fn lemma_decode_encode_eis(i: EisIns, rest: Seq<u16>)
    requires
        Ins::Eis(i).canonical(),
    ensures
        spec_decode(Ins::Eis(i).spec_words() + rest) == Some(Ins::Eis(i)),
{
    let ins = Ins::Eis(i);
    let ws = ins.spec_words() + rest;
    let w = ins.spec_first_word();
    assert(ws[0] == w);
            let c = i.op.spec_code() as int;
            let r = i.reg.spec_code() as int;
            let d = i.operand.spec_encode() as int;
            assert(w == (c * 8 + r) * 64 + d);
            lemma_split(c * 8 + r, 64, d);
            lemma_split(c, 8, r);
            lemma_div_coarse(c * 8 + r, 64, d, 8);
            lemma_div_coarse(c * 8 + r, 64, d, 64);
            lemma_div_coarse(c * 8 + r, 64, d, 4);
            lemma_div_fine(c * 8 + r, 8, 8, d);
            lemma_reg_code_roundtrip(i.reg);
            lemma_decode_operand_roundtrip(i.operand, ws, 1);
}

proof fn lemma_decode_encode_trap(i: TrapIns, rest: Seq<u16>)
    requires
        Ins::Trap(i).canonical(),
    ensures
        spec_decode(Ins::Trap(i).spec_words() + rest) == Some(Ins::Trap(i)),
{
    let ins = Ins::Trap(i);
    let ws = ins.spec_words() + rest;
    let w = ins.spec_first_word();
    assert(ws[0] == w);
    let c = i.op.spec_code() as int;
    let d = i.data.spec_val() as int;
    lemma_split(c, 256, d);
    lemma_div_coarse(c, 256, d, 16);
    lemma_div_coarse(c, 256, d, 2);
    lemma_div_fine(c, 4, 64, d);
    lemma_div_fine(c, 32, 8, d);
}

/// Decoding undoes encoding: an instruction in canonical form, followed by
/// any words, decodes back to itself.
pub proof fn lemma_decode_encode(ins: Ins, rest: Seq<u16>)
    requires
        ins.canonical(),
    ensures
        spec_decode(ins.spec_words() + rest) == Some(ins),
{
    match ins {
        Ins::DoubleOperand(i) => lemma_decode_encode_double_operand(i, rest),
        Ins::Branch(i) => lemma_decode_encode_branch(i, rest),
        Ins::Jmp(i) => lemma_decode_encode_jmp(i, rest),
        Ins::Jsr(i) => lemma_decode_encode_jsr(i, rest),
        Ins::Rts(i) => lemma_decode_encode_rts(i, rest),
        Ins::SingleOperand(i) => lemma_decode_encode_single_operand(i, rest),
        Ins::Eis(i) => lemma_decode_encode_eis(i, rest),
        Ins::Trap(i) => lemma_decode_encode_trap(i, rest),
        Ins::CC(i) => {
            assert((ins.spec_words() + rest)[0] == ins.spec_first_word());
        },
        Ins::Misc(i) => {
            assert((ins.spec_words() + rest)[0] == ins.spec_first_word());
        },
    }
}


/// A decoded operand is canonical, encodes back to its six bits, and carries
/// the word at `idx` exactly when its mode needs one.
proof fn lemma_decode_operand_canonical(arg: u16, ws: Seq<u16>, idx: int)
    requires
        arg < 64,
        spec_decode_operand(arg, ws, idx) is Some,
    ensures
        ({
            let o = spec_decode_operand(arg, ws, idx)->0;
            &&& o.canonical()
            &&& o.spec_encode() == arg
            &&& o.spec_needs_extra() ==> 0 <= idx < ws.len() && o.extra_words() == seq![ws[idx]]
                && o.spec_num_extra() == 1
            &&& !o.spec_needs_extra() ==> o.extra_words() == Seq::<u16>::empty()
                && o.spec_num_extra() == 0
        }),
{
    lemma_fundamental_div_mod(arg as int, 8);
    let o = spec_decode_operand(arg, ws, idx)->0;
    assert(o.mode.spec_code() == arg / 8);
    assert(o.reg.spec_code() == arg % 8);
}

/// `w` is its fields `w / (m * k)`, `(w / k) % m` and `w % k` put together.
proof fn lemma_fields(w: int, m: int, k: int)
    requires
        w >= 0,
        m > 0,
        k > 0,
    ensures
        w == (w / (k * m)) * (k * m) + ((w / k) % m) * k + w % k,
{
    lemma_fundamental_div_mod(w, k);
    lemma_fundamental_div_mod(w / k, m);
    lemma_div_denominator(w, k, m);
    assert(w == k * (m * ((w / k) / m) + (w / k) % m) + w % k);
    assert(k * (m * ((w / k) / m) + (w / k) % m) == ((w / k) / m) * (k * m) + ((w / k) % m) * k)
        by (nonlinear_arith);
}

/// `ins` is canonical and its binary form starts `ws`.
pub open spec fn encodes_prefix(ins: Ins, ws: Seq<u16>) -> bool {
    &&& ins.canonical()
    &&& ins.spec_words().len() <= ws.len()
    &&& ins.spec_words() == ws.subrange(0, ins.spec_words().len() as int)
}

proof fn lemma_encode_decode_double(op: DoubleOperandOpcode, ws: Seq<u16>)
    requires
        ws.len() >= 1,
        op.spec_code() == ws[0] / 4096,
        spec_decode_double(op, ws) is Some,
    ensures
        encodes_prefix(spec_decode_double(op, ws)->0, ws),
{
    let w = ws[0] as int;
    let ins = spec_decode_double(op, ws)->0;
    lemma_fields(w, 64, 64);
    let src_bits = ((w / 64) % 64) as u16;
    lemma_decode_operand_canonical(src_bits, ws, 1);
    let src = spec_decode_operand(src_bits, ws, 1)->0;
    lemma_decode_operand_canonical((w % 64) as u16, ws, 1 + src.spec_num_extra());
    assert(ins.spec_words() =~= ws.subrange(0, ins.spec_words().len() as int));
}

proof fn lemma_encode_decode_operand_format(ins: Ins, ws: Seq<u16>, hi: int, o: Operand)
    requires
        ws.len() >= 1,
        ws[0] == hi * 64 + ws[0] % 64,
        spec_decode_operand((ws[0] % 64) as u16, ws, 1) == Some(o),
        ins.spec_words() == seq![(hi * 64 + o.spec_encode()) as u16] + o.extra_words(),
        ins.canonical() <== o.canonical(),
    ensures
        encodes_prefix(ins, ws),
{
    lemma_decode_operand_canonical((ws[0] % 64) as u16, ws, 1);
    assert(ins.spec_words() =~= ws.subrange(0, ins.spec_words().len() as int));
}

/// Decoding gives back every instruction that can be encoded: one whose
/// operands carry their extra words exactly where their modes need them
/// decodes, after any words, to its canonical form (each extra word marked
/// relative or immediate as its mode says).
pub proof fn lemma_decode_encode_shaped(ins: Ins, rest: Seq<u16>)
    requires
        ins.well_shaped(),
    ensures
        spec_decode(ins.spec_words() + rest) == Some(ins.canonical_form()),
{
    let c = ins.canonical_form();
    assert(c.canonical());
    assert(c.spec_first_word() == ins.spec_first_word());
    assert(c.spec_words() =~= ins.spec_words());
    lemma_decode_encode(c, rest);
}

proof fn lemma_one_word(ins: Ins, ws: Seq<u16>)
    requires
        ws.len() >= 1,
        ins.spec_words() == seq![ws[0]],
        ins.canonical(),
    ensures
        encodes_prefix(ins, ws),
{
    assert(ins.spec_words() =~= ws.subrange(0, 1));
}

/// Encoding undoes decoding: a decoded instruction is canonical, and its
/// binary form is the words it was decoded from.
pub proof fn lemma_encode_decode(ws: Seq<u16>)
    requires
        ws.len() >= 1,
        spec_decode(ws) is Some,
    ensures
        encodes_prefix(spec_decode(ws)->0, ws),
{
    let w = ws[0] as int;
    let ins = spec_decode(ws)->0;
    lemma_fundamental_div_mod(w, 64);
    if let Some(op) = DoubleOperandOpcode::spec_from_code(ws[0] / 4096) {
        lemma_encode_decode_double(op, ws);
    } else if let Some(op) = BranchOpcode::spec_from_code(ws[0] / 256) {
        lemma_fundamental_div_mod(w, 256);
        lemma_one_word(ins, ws);
    } else if let Some(op) = JmpOpcode::spec_from_code(ws[0] / 64) {
        let o = spec_decode_operand(ws[0] % 64, ws, 1)->0;
        lemma_encode_decode_operand_format(ins, ws, 1, o);
    } else if let Some(op) = JsrOpcode::spec_from_code(ws[0] / 512) {
        lemma_fields(w, 8, 64);
        let o = spec_decode_operand(ws[0] % 64, ws, 1)->0;
        lemma_encode_decode_operand_format(ins, ws, w / 64, o);
    } else if let Some(op) = RtsOpcode::spec_from_code(ws[0] / 8) {
        lemma_fundamental_div_mod(w, 8);
        lemma_one_word(ins, ws);
    } else if let Some(op) = SingleOperandOpcode::spec_from_code(ws[0] / 64) {
        let o = spec_decode_operand(ws[0] % 64, ws, 1)->0;
        lemma_encode_decode_operand_format(ins, ws, w / 64, o);
    } else if let Some(op) = EisOpcode::spec_from_code(ws[0] / 512) {
        lemma_fields(w, 8, 64);
        let o = spec_decode_operand(ws[0] % 64, ws, 1)->0;
        lemma_encode_decode_operand_format(ins, ws, w / 64, o);
    } else if let Some(op) = CCOpcode::spec_from_code(ws[0]) {
        lemma_one_word(ins, ws);
    } else if let Some(op) = MiscOpcode::spec_from_code(ws[0]) {
        lemma_one_word(ins, ws);
    } else {
        lemma_fundamental_div_mod(w, 256);
        lemma_one_word(ins, ws);
    }
}

} // verus!
