//! The arithmetic of the instructions: results and condition codes, as pure
//! functions of the operand values.
use vstd::prelude::*;
use crate::isa::{DoubleOperandOpcode, SingleOperandOpcode};

verus! {

/// Width of an operation.
#[derive(Debug, Clone, Copy, PartialEq, Eq, Structural)]
pub enum Size {
    Byte,
    Word,
}

impl Size {
    /// Number of values of this width: 256 or 65536.
    pub open spec fn modulus(self) -> int {
        match self {
            Size::Byte => 256,
            Size::Word => 65536,
        }
    }

    /// The smallest value whose sign bit is set.
    pub open spec fn half(self) -> int {
        match self {
            Size::Byte => 128,
            Size::Word => 32768,
        }
    }

    pub fn bytes(self) -> (r: u16)
        ensures
            r == (if self == Size::Byte { 1u16 } else { 2u16 }),
    {
        match self {
            Size::Byte => 1,
            Size::Word => 2,
        }
    }

    pub fn bits(&self) -> (r: u16)
        ensures
            r == (if self == Size::Byte { 8u16 } else { 16u16 }),
    {
        self.bytes() * 8
    }

    /// All bits of the width set.
    pub fn mask(self) -> (r: u32)
        ensures
            r == self.modulus() - 1,
    {
        match self {
            Size::Byte => 0xff,
            Size::Word => 0xffff,
        }
    }

    pub fn smallest_signed(self) -> (r: u32)
        ensures
            r == self.half(),
    {
        match self {
            Size::Byte => 0x80,
            Size::Word => 0x8000,
        }
    }

    pub fn largest_signed(self) -> (r: u32)
        ensures
            r == self.half() - 1,
    {
        self.smallest_signed() - 1
    }

    /// The sign bit of `val` taken at this width.
    pub fn sign_bit(self, val: u32) -> (r: u32)
        ensures
            r == (val as int / self.half()) % 2,
    {
        match self {
            Size::Word => (val / 0x8000) % 2,
            Size::Byte => (val / 0x80) % 2,
        }
    }
}

/// Whether the sign bit of `v` (taken modulo the width) is set.
pub open spec fn msb(v: int, size: Size) -> bool {
    (v % size.modulus()) >= size.half()
}

/// The two's-complement value of `v`, taken modulo the width.
pub open spec fn signed(v: int, size: Size) -> int {
    let u = v % size.modulus();
    if u >= size.half() {
        u - size.modulus()
    } else {
        u
    }
}

/// A result value and the condition codes an instruction leaves.
#[derive(Debug, Clone, Copy, PartialEq, Eq, Structural)]
pub struct AluOut {
    pub res: u16,
    pub n: bool,
    pub z: bool,
    pub v: bool,
    pub c: bool,
}

/// The result and condition codes of a single-operand instruction on the
/// value `val` of its width, with carry `c` coming in.
pub open spec fn spec_single_op(op: SingleOperandOpcode, size: Size, val: int, c: bool) -> AluOut {
    let m = size.modulus();
    let h = size.half();
    let ci: int = if c {
        1
    } else {
        0
    };
    let out = |r: int, v: bool, cout: bool|
        AluOut { res: r as u16, n: r >= h, z: r == 0, v, c: cout };
    match op {
        SingleOperandOpcode::Swab => {
            let r = (val % 256) * 256 + val / 256;
            AluOut { res: r as u16, n: (r / 128) % 2 == 1, z: r % 256 == 0, v: false, c: false }
        },
        SingleOperandOpcode::Clr | SingleOperandOpcode::ClrB => out(0, false, false),
        SingleOperandOpcode::Com | SingleOperandOpcode::ComB => out(m - 1 - val, false, true),
        SingleOperandOpcode::Inc | SingleOperandOpcode::IncB => out((val + 1) % m, val == h - 1, c),
        SingleOperandOpcode::Dec | SingleOperandOpcode::DecB => out((val + m - 1) % m, val == h, c),
        SingleOperandOpcode::Neg | SingleOperandOpcode::NegB => {
            let r = (m - val) % m;
            out(r, val == h, r != 0)
        },
        SingleOperandOpcode::Adc | SingleOperandOpcode::AdcB => out(
            (val + ci) % m,
            val == h - 1 && c,
            val == m - 1 && c,
        ),
        SingleOperandOpcode::Sbc | SingleOperandOpcode::SbcB => {
            let r = (val + m - ci) % m;
            out(r, r == h, !(r == 0 && c))
        },
        SingleOperandOpcode::Tst | SingleOperandOpcode::TstB => AluOut {
            res: val as u16,
            n: (m - val) % m >= h,
            z: val == 0,
            v: false,
            c: false,
        },
        SingleOperandOpcode::Ror | SingleOperandOpcode::RorB => {
            let r = val / 2 + ci * h;
            let cout = val % 2 == 1;
            out(r, (r >= h) != cout, cout)
        },
        SingleOperandOpcode::Rol | SingleOperandOpcode::RolB => {
            let r = (val * 2) % m + ci;
            let cout = val >= h;
            out(r, (r >= h) != cout, cout)
        },
        SingleOperandOpcode::Asr | SingleOperandOpcode::AsrB => {
            let r = val / 2 + (if val >= h {
                h
            } else {
                0
            });
            let cout = val % 2 == 1;
            out(r, (r >= h) != cout, cout)
        },
        SingleOperandOpcode::Asl | SingleOperandOpcode::AslB => {
            let r = (val * 2) % m;
            let cout = val >= h;
            out(r, (r >= h) != cout, cout)
        },
    }
}

/// Whether the instruction writes its result back (all but `tst`).
pub open spec fn single_op_writes(op: SingleOperandOpcode) -> bool {
    op != SingleOperandOpcode::Tst && op != SingleOperandOpcode::TstB
}

/// The width a single-operand instruction works on.
pub open spec fn single_op_size(op: SingleOperandOpcode) -> Size {
    if op.spec_code() >= 552 {
        Size::Byte
    } else {
        Size::Word
    }
}

/// The result and condition codes of a single-operand instruction.
pub fn single_op(op: SingleOperandOpcode, size: Size, val: u16, c: bool) -> (r: AluOut)
    requires
        size == single_op_size(op),
        val < size.modulus(),
    ensures
        r == spec_single_op(op, size, val as int, c),
        (r.res as int) < size.modulus(),
{
    let m: u32 = size.mask() + 1;
    let h: u32 = size.smallest_signed();
    let v32 = val as u32;
    let ci: u32 = if c { 1 } else { 0 };
    match op {
        SingleOperandOpcode::Swab => {
            let r = (v32 % 256) * 256 + v32 / 256;
            AluOut { res: r as u16, n: (r / 128) % 2 == 1, z: r % 256 == 0, v: false, c: false }
        },
        SingleOperandOpcode::Clr | SingleOperandOpcode::ClrB => {
            AluOut { res: 0, n: false, z: true, v: false, c: false }
        },
        SingleOperandOpcode::Com | SingleOperandOpcode::ComB => {
            let r = m - 1 - v32;
            AluOut { res: r as u16, n: r >= h, z: r == 0, v: false, c: true }
        },
        SingleOperandOpcode::Inc | SingleOperandOpcode::IncB => {
            let r = (v32 + 1) % m;
            AluOut { res: r as u16, n: r >= h, z: r == 0, v: v32 == h - 1, c }
        },
        SingleOperandOpcode::Dec | SingleOperandOpcode::DecB => {
            let r = (v32 + m - 1) % m;
            AluOut { res: r as u16, n: r >= h, z: r == 0, v: v32 == h, c }
        },
        SingleOperandOpcode::Neg | SingleOperandOpcode::NegB => {
            let r = (m - v32) % m;
            AluOut { res: r as u16, n: r >= h, z: r == 0, v: v32 == h, c: r != 0 }
        },
        SingleOperandOpcode::Adc | SingleOperandOpcode::AdcB => {
            let r = (v32 + ci) % m;
            AluOut { res: r as u16, n: r >= h, z: r == 0, v: v32 == h - 1 && c, c: v32 == m - 1 && c }
        },
        SingleOperandOpcode::Sbc | SingleOperandOpcode::SbcB => {
            let r = (v32 + m - ci) % m;
            AluOut { res: r as u16, n: r >= h, z: r == 0, v: r == h, c: !(r == 0 && c) }
        },
        SingleOperandOpcode::Tst | SingleOperandOpcode::TstB => {
            AluOut { res: val, n: (m - v32) % m >= h, z: v32 == 0, v: false, c: false }
        },
        SingleOperandOpcode::Ror | SingleOperandOpcode::RorB => {
            let r = v32 / 2 + ci * h;
            let cout = v32 % 2 == 1;
            AluOut { res: r as u16, n: r >= h, z: r == 0, v: (r >= h) != cout, c: cout }
        },
        SingleOperandOpcode::Rol | SingleOperandOpcode::RolB => {
            let r = (v32 * 2) % m + ci;
            let cout = v32 >= h;
            AluOut { res: r as u16, n: r >= h, z: r == 0, v: (r >= h) != cout, c: cout }
        },
        SingleOperandOpcode::Asr | SingleOperandOpcode::AsrB => {
            let r = v32 / 2 + if v32 >= h { h } else { 0 };
            let cout = v32 % 2 == 1;
            AluOut { res: r as u16, n: r >= h, z: r == 0, v: (r >= h) != cout, c: cout }
        },
        SingleOperandOpcode::Asl | SingleOperandOpcode::AslB => {
            let r = (v32 * 2) % m;
            let cout = v32 >= h;
            AluOut { res: r as u16, n: r >= h, z: r == 0, v: (r >= h) != cout, c: cout }
        },
    }
}


/// The width a double-operand instruction works on.
pub open spec fn double_op_size(op: DoubleOperandOpcode) -> Size {
    if op.spec_code() >= 9 && op != DoubleOperandOpcode::Sub {
        Size::Byte
    } else {
        Size::Word
    }
}

/// Whether the instruction writes its result to the destination (all but
/// `cmp` and `bit`).
pub open spec fn double_op_writes(op: DoubleOperandOpcode) -> bool {
    !(op == DoubleOperandOpcode::Cmp || op == DoubleOperandOpcode::CmpB
        || op == DoubleOperandOpcode::Bit || op == DoubleOperandOpcode::BitB)
}

/// The result and condition codes of a double-operand instruction on source
/// and destination values of its width, with carry `c` coming in.
pub open spec fn spec_double_op(op: DoubleOperandOpcode, size: Size, src: u16, dst: u16, c: bool) -> AluOut {
    let m = size.modulus();
    let h = size.half();
    let out = |r: int, v: bool, cout: bool|
        AluOut { res: r as u16, n: r >= h, z: r == 0, v, c: cout };
    match op {
        DoubleOperandOpcode::Mov | DoubleOperandOpcode::MovB => out(src as int, false, c),
        DoubleOperandOpcode::Cmp | DoubleOperandOpcode::CmpB => {
            let r = (src - dst + m) % m;
            out(r, (src >= h) != (dst >= h) && (dst >= h) == (r >= h), src < dst)
        },
        DoubleOperandOpcode::Bit | DoubleOperandOpcode::BitB => out((src & dst) as int, false, c),
        DoubleOperandOpcode::Bic | DoubleOperandOpcode::BicB => out((dst & !src) as int, false, c),
        DoubleOperandOpcode::Bis | DoubleOperandOpcode::BisB => out((src | dst) as int, false, c),
        DoubleOperandOpcode::Add => {
            let r = (src + dst) % m;
            out(r, (src >= h) == (dst >= h) && (dst >= h) != (r >= h), src + dst >= m)
        },
        DoubleOperandOpcode::Sub => {
            let r = (dst - src + m) % m;
            out(r, (src >= h) != (dst >= h) && (src >= h) == (r >= h), dst < src)
        },
    }
}

proof fn lemma_bitwise_bounds(a: u16, b: u16)
    requires
        a < 256,
        b < 256,
    ensures
        (a & b) < 256,
        (a | b) < 256,
        (b & !a) < 256,
{
    assert((a & b) < 256 && (a | b) < 256 && (b & !a) < 256) by (bit_vector)
        requires
            a < 256,
            b < 256,
    ;
}

/// The result and condition codes of a double-operand instruction.
pub fn double_op(op: DoubleOperandOpcode, size: Size, src: u16, dst: u16, c: bool) -> (r: AluOut)
    requires
        size == double_op_size(op),
        src < size.modulus(),
        dst < size.modulus(),
    ensures
        r == spec_double_op(op, size, src, dst, c),
        (r.res as int) < size.modulus(),
{
    let m: u32 = size.mask() + 1;
    let h: u16 = size.smallest_signed() as u16;
    if size == Size::Byte {
        proof {
            lemma_bitwise_bounds(src, dst);
        }
    }
    match op {
        DoubleOperandOpcode::Mov | DoubleOperandOpcode::MovB => {
            AluOut { res: src, n: src >= h, z: src == 0, v: false, c }
        },
        DoubleOperandOpcode::Cmp | DoubleOperandOpcode::CmpB => {
            let r = ((src as u32 + m - dst as u32) % m) as u16;
            AluOut {
                res: r,
                n: r >= h,
                z: r == 0,
                v: (src >= h) != (dst >= h) && (dst >= h) == (r >= h),
                c: src < dst,
            }
        },
        DoubleOperandOpcode::Bit | DoubleOperandOpcode::BitB => {
            let r = src & dst;
            AluOut { res: r, n: r >= h, z: r == 0, v: false, c }
        },
        DoubleOperandOpcode::Bic | DoubleOperandOpcode::BicB => {
            let r = dst & !src;
            AluOut { res: r, n: r >= h, z: r == 0, v: false, c }
        },
        DoubleOperandOpcode::Bis | DoubleOperandOpcode::BisB => {
            let r = src | dst;
            AluOut { res: r, n: r >= h, z: r == 0, v: false, c }
        },
        DoubleOperandOpcode::Add => {
            let sum = src as u32 + dst as u32;
            let r = (sum % m) as u16;
            AluOut {
                res: r,
                n: r >= h,
                z: r == 0,
                v: (src >= h) == (dst >= h) && (dst >= h) != (r >= h),
                c: sum >= m,
            }
        },
        DoubleOperandOpcode::Sub => {
            let r = ((dst as u32 + m - src as u32) % m) as u16;
            AluOut {
                res: r,
                n: r >= h,
                z: r == 0,
                v: (src >= h) != (dst >= h) && (src >= h) == (r >= h),
                c: dst < src,
            }
        },
    }
}

/// Addition sets the overflow flag exactly when the sum of the operands, as
/// two's-complement numbers, does not fit the width.
pub proof fn lemma_add_overflow(src: u16, dst: u16, c: bool)
    ensures
        spec_double_op(DoubleOperandOpcode::Add, Size::Word, src, dst, c).v == !(-32768
            <= signed(src as int, Size::Word) + signed(dst as int, Size::Word) < 32768),
        spec_double_op(DoubleOperandOpcode::Add, Size::Word, src, dst, c).c == (src + dst
            >= 65536),
{
}

/// Subtraction (`dst - src`) sets the overflow flag exactly when the
/// difference, as two's-complement numbers, does not fit the width; the
/// carry flag is the borrow.
pub proof fn lemma_sub_overflow(src: u16, dst: u16, c: bool)
    ensures
        spec_double_op(DoubleOperandOpcode::Sub, Size::Word, src, dst, c).v == !(-32768
            <= signed(dst as int, Size::Word) - signed(src as int, Size::Word) < 32768),
        spec_double_op(DoubleOperandOpcode::Sub, Size::Word, src, dst, c).res as int == (dst
            - src) % 65536,
{
}

/// Comparison (`src - dst`) sets the overflow flag exactly when the
/// difference, as two's-complement numbers, does not fit the width.
pub proof fn lemma_compare_overflow(src: u16, dst: u16, size: Size, c: bool)
    requires
        src < size.modulus(),
        dst < size.modulus(),
    ensures
        spec_double_op(DoubleOperandOpcode::Cmp, size, src, dst, c).v == !(-size.half()
            <= signed(src as int, size) - signed(dst as int, size) < size.half()),
{
}

/// Incrementing sets the overflow flag exactly when the two's-complement
/// value leaves the range, and decrementing likewise.
pub proof fn lemma_inc_dec_overflow(val: u16, size: Size, c: bool)
    requires
        val < size.modulus(),
    ensures
        spec_single_op(SingleOperandOpcode::Inc, size, val as int, c).v == (signed(val as int, size) + 1
            >= size.half()),
        spec_single_op(SingleOperandOpcode::Dec, size, val as int, c).v == (signed(val as int, size) - 1
            < -size.half()),
{
}

/// Negation leaves a result that added to the operand gives zero modulo
/// the width, and overflows only on the most negative value.
pub proof fn lemma_neg(val: u16, size: Size, c: bool)
    requires
        val < size.modulus(),
    ensures
        (spec_single_op(SingleOperandOpcode::Neg, size, val as int, c).res + val) % size.modulus()
            == 0,
        spec_single_op(SingleOperandOpcode::Neg, size, val as int, c).v == (signed(val as int, size)
            == -size.half()),
{
}


/// `cmp` and `cmpb` compare the source with the destination: the result is
/// the difference `src - dst` at the width, Z is set exactly when they are
/// equal, C (the borrow, read by `blo`) exactly when the source is below
/// the destination as unsigned numbers, and N differs from V (read by
/// `blt`) exactly when it is below as two's-complement numbers.
pub proof fn lemma_compare_orders(op: DoubleOperandOpcode, size: Size, src: u16, dst: u16, c: bool)
    requires
        op == DoubleOperandOpcode::Cmp || op == DoubleOperandOpcode::CmpB,
        size == double_op_size(op),
        src < size.modulus(),
        dst < size.modulus(),
    ensures
        ((spec_double_op(op, size, src, dst, c).res + dst) as int) % size.modulus() == src,
        (spec_double_op(op, size, src, dst, c).res as int) < size.modulus(),
        spec_double_op(op, size, src, dst, c).z == (src == dst),
        spec_double_op(op, size, src, dst, c).c == (src < dst),
        (spec_double_op(op, size, src, dst, c).n != spec_double_op(op, size, src, dst, c).v) == (
        signed(src as int, size) < signed(dst as int, size)),
        spec_double_op(op, size, src, dst, c).v == !(-size.half() <= signed(src as int, size)
            - signed(dst as int, size) < size.half()),
{
}

/// `sub` takes the source from the destination: the result is `dst - src`
/// modulo 2^16, Z is set exactly when they are equal, C (the borrow)
/// exactly when the destination is below the source as unsigned numbers,
/// and N differs from V exactly when it is below as two's-complement
/// numbers.
pub proof fn lemma_subtract_orders(src: u16, dst: u16, c: bool)
    ensures
        ((spec_double_op(DoubleOperandOpcode::Sub, Size::Word, src, dst, c).res + src) as int)
            % 65536 == dst,
        spec_double_op(DoubleOperandOpcode::Sub, Size::Word, src, dst, c).z == (src == dst),
        spec_double_op(DoubleOperandOpcode::Sub, Size::Word, src, dst, c).c == (dst < src),
        (spec_double_op(DoubleOperandOpcode::Sub, Size::Word, src, dst, c).n != spec_double_op(
            DoubleOperandOpcode::Sub,
            Size::Word,
            src,
            dst,
            c,
        ).v) == (signed(dst as int, Size::Word) < signed(src as int, Size::Word)),
{
}

/// `add` gives the sum modulo 2^16; C is the carry out of the word, Z is
/// set exactly when the sum is a multiple of 2^16, and N differs from V
/// exactly when the true two's-complement sum is negative.
pub proof fn lemma_add_sum(src: u16, dst: u16, c: bool)
    ensures
        spec_double_op(DoubleOperandOpcode::Add, Size::Word, src, dst, c).res as int == (src + dst)
            % 65536,
        spec_double_op(DoubleOperandOpcode::Add, Size::Word, src, dst, c).c == (src as int + dst
            as int >= 65536),
        spec_double_op(DoubleOperandOpcode::Add, Size::Word, src, dst, c).z == ((src as int
            + dst as int) % 65536 == 0),
        (spec_double_op(DoubleOperandOpcode::Add, Size::Word, src, dst, c).n != spec_double_op(
            DoubleOperandOpcode::Add,
            Size::Word,
            src,
            dst,
            c,
        ).v) == (signed(src as int, Size::Word) + signed(dst as int, Size::Word) < 0),
{
}

/// `mov`, `bit`, `bic` and `bis` (and their byte forms) give the source,
/// the bits set in both, the destination's bits not set in the source, and
/// the bits set in either; N is the sign bit of the result and Z whether it
/// is zero; V is cleared and C is left as it was.
pub proof fn lemma_logical_ops(op: DoubleOperandOpcode, size: Size, src: u16, dst: u16, c: bool)
    requires
        size == double_op_size(op),
        src < size.modulus(),
        dst < size.modulus(),
        !(op == DoubleOperandOpcode::Cmp || op == DoubleOperandOpcode::CmpB
            || op == DoubleOperandOpcode::Add || op == DoubleOperandOpcode::Sub),
    ensures
        spec_double_op(op, size, src, dst, c).res == (match op {
            DoubleOperandOpcode::Mov | DoubleOperandOpcode::MovB => src,
            DoubleOperandOpcode::Bit | DoubleOperandOpcode::BitB => src & dst,
            DoubleOperandOpcode::Bic | DoubleOperandOpcode::BicB => dst & !src,
            _ => src | dst,
        }),
        spec_double_op(op, size, src, dst, c).n == msb(spec_double_op(op, size, src, dst, c).res as int, size),
        spec_double_op(op, size, src, dst, c).z == (spec_double_op(op, size, src, dst, c).res == 0),
        !spec_double_op(op, size, src, dst, c).v,
        spec_double_op(op, size, src, dst, c).c == c,
{
    if size == Size::Byte {
        lemma_bitwise_bounds(src, dst);
    }
}

/// `inc` and `incb` add one to the value modulo the width; V is set exactly
/// when the two's-complement value leaves the range, and C is kept.
pub proof fn lemma_increment(op: SingleOperandOpcode, size: Size, val: u16, c: bool)
    requires
        op == SingleOperandOpcode::Inc || op == SingleOperandOpcode::IncB,
        size == single_op_size(op),
        val < size.modulus(),
    ensures
        spec_single_op(op, size, val as int, c).res as int == (val + 1) % size.modulus(),
        spec_single_op(op, size, val as int, c).c == c,
        spec_single_op(op, size, val as int, c).v == (signed(val as int, size) + 1 >= size.half()),
        spec_single_op(op, size, val as int, c).n == msb((val + 1) as int, size),
        spec_single_op(op, size, val as int, c).z == ((val + 1) % size.modulus() == 0),
{
    if size == Size::Byte {
    } else {
    }
}

/// `dec` and `decb` take one from the value modulo the width; V is set
/// exactly when the two's-complement value leaves the range, and C is kept.
pub proof fn lemma_decrement(op: SingleOperandOpcode, size: Size, val: u16, c: bool)
    requires
        op == SingleOperandOpcode::Dec || op == SingleOperandOpcode::DecB,
        size == single_op_size(op),
        val < size.modulus(),
    ensures
        ((spec_single_op(op, size, val as int, c).res + 1) as int) % size.modulus() == val,
        (spec_single_op(op, size, val as int, c).res as int) < size.modulus(),
        spec_single_op(op, size, val as int, c).c == c,
        spec_single_op(op, size, val as int, c).v == (signed(val as int, size) - 1 < -size.half()),
        spec_single_op(op, size, val as int, c).z == (val == 1),
{
    if size == Size::Byte {
    } else {
    }
}

/// `neg` and `negb` give the value that added to the operand makes zero
/// modulo the width; C is set exactly when the operand is not zero, V
/// exactly when it is the most negative value.
pub proof fn lemma_negate(op: SingleOperandOpcode, size: Size, val: u16, c: bool)
    requires
        op == SingleOperandOpcode::Neg || op == SingleOperandOpcode::NegB,
        size == single_op_size(op),
        val < size.modulus(),
    ensures
        ((spec_single_op(op, size, val as int, c).res + val) as int) % size.modulus() == 0,
        (spec_single_op(op, size, val as int, c).res as int) < size.modulus(),
        spec_single_op(op, size, val as int, c).c == (val != 0),
        spec_single_op(op, size, val as int, c).z == (val == 0),
        spec_single_op(op, size, val as int, c).v == (signed(val as int, size) == -size.half()),
{
    if size == Size::Byte {
    } else {
    }
}

/// `com` and `comb` flip every bit: the result added to the operand sets
/// every bit of the width; C is set and V cleared.
pub proof fn lemma_complement(op: SingleOperandOpcode, size: Size, val: u16, c: bool)
    requires
        op == SingleOperandOpcode::Com || op == SingleOperandOpcode::ComB,
        size == single_op_size(op),
        val < size.modulus(),
    ensures
        spec_single_op(op, size, val as int, c).res + val == size.modulus() - 1,
        spec_single_op(op, size, val as int, c).c,
        !spec_single_op(op, size, val as int, c).v,
        spec_single_op(op, size, val as int, c).z == (val == size.modulus() - 1),
        spec_single_op(op, size, val as int, c).n == !msb(val as int, size),
{
    if size == Size::Byte {
    } else {
    }
}

/// `adc` and `sbc` add and take the carry: `adc` sets C exactly when the
/// sum leaves the width and V when the two's-complement sum leaves the
/// range; `sbc` gives the value that with the carry added back is the
/// operand.
pub proof fn lemma_carry_ops(op: SingleOperandOpcode, size: Size, val: u16, c: bool)
    requires
        op == SingleOperandOpcode::Adc || op == SingleOperandOpcode::AdcB || op
            == SingleOperandOpcode::Sbc || op == SingleOperandOpcode::SbcB,
        size == single_op_size(op),
        val < size.modulus(),
    ensures
        ({
            let r = spec_single_op(op, size, val as int, c);
            let m = size.modulus();
            let ci: int = if c { 1 } else { 0 };
            &&& (op == SingleOperandOpcode::Adc || op == SingleOperandOpcode::AdcB) ==> (r.res as int
                == (val + ci) % m && r.c == (val + ci >= m) && r.v == (signed(val as int, size) + ci
                >= size.half()))
            &&& (op == SingleOperandOpcode::Sbc || op == SingleOperandOpcode::SbcB) ==> ((r.res as int
                + ci) % m == val && (r.res as int) < m)
            &&& r.z == (r.res == 0)
        }),
{
    if size == Size::Byte {
    } else {
    }
}

/// `clr` and `clrb` give zero, with only Z set.
pub proof fn lemma_clear(op: SingleOperandOpcode, size: Size, val: u16, c: bool)
    requires
        op == SingleOperandOpcode::Clr || op == SingleOperandOpcode::ClrB,
        size == single_op_size(op),
    ensures
        spec_single_op(op, size, val as int, c).res == 0,
        spec_single_op(op, size, val as int, c).z,
        !spec_single_op(op, size, val as int, c).n,
        !spec_single_op(op, size, val as int, c).v,
        !spec_single_op(op, size, val as int, c).c,
{
}

/// `tst` leaves its operand, clears V and C, and sets Z exactly when the
/// operand is zero; N is the sign bit of the operand's negation.
pub proof fn lemma_test(op: SingleOperandOpcode, size: Size, val: u16, c: bool)
    requires
        op == SingleOperandOpcode::Tst || op == SingleOperandOpcode::TstB,
        size == single_op_size(op),
        val < size.modulus(),
    ensures
        spec_single_op(op, size, val as int, c).res == val,
        spec_single_op(op, size, val as int, c).z == (val == 0),
        spec_single_op(op, size, val as int, c).n == msb(size.modulus() - val, size),
        !spec_single_op(op, size, val as int, c).v,
        !spec_single_op(op, size, val as int, c).c,
{
}

/// `ror` and `rorb` rotate the bits of the width and C together one place
/// right: the result doubled, plus the bit that went to C, is the operand
/// plus the old carry in the top place; V is N differing from C.
pub proof fn lemma_rotate_right(op: SingleOperandOpcode, size: Size, val: u16, c: bool)
    requires
        op == SingleOperandOpcode::Ror || op == SingleOperandOpcode::RorB,
        size == single_op_size(op),
        val < size.modulus(),
    ensures
        ({
            let r = spec_single_op(op, size, val as int, c);
            let ci: int = if c { 1 } else { 0 };
            let co: int = if r.c { 1 } else { 0 };
            &&& r.res as int * 2 + co == val + ci * size.modulus()
            &&& r.c == (val % 2 == 1)
            &&& r.n == c
            &&& r.v == (r.n != r.c)
        }),
{
    if size == Size::Byte {
    } else {
    }
}

/// `rol` and `rolb` rotate the bits of the width and C together one place
/// left: the result, plus the bit that went to C in the top place, is the
/// operand doubled plus the old carry; V is N differing from C.
pub proof fn lemma_rotate_left(op: SingleOperandOpcode, size: Size, val: u16, c: bool)
    requires
        op == SingleOperandOpcode::Rol || op == SingleOperandOpcode::RolB,
        size == single_op_size(op),
        val < size.modulus(),
    ensures
        ({
            let r = spec_single_op(op, size, val as int, c);
            let ci: int = if c { 1 } else { 0 };
            let co: int = if r.c { 1 } else { 0 };
            &&& r.res as int + co * size.modulus() == val * 2 + ci
            &&& r.c == msb(val as int, size)
            &&& r.v == (r.n != r.c)
        }),
{
    if size == Size::Byte {
    } else {
    }
}

/// `asr` and `asrb` halve the two's-complement value, rounding down, and
/// `asl` and `aslb` double the value modulo the width; C is the bit shifted
/// out and V is N differing from C.
pub proof fn lemma_arith_shifts(op: SingleOperandOpcode, size: Size, val: u16, c: bool)
    requires
        op == SingleOperandOpcode::Asr || op == SingleOperandOpcode::AsrB || op
            == SingleOperandOpcode::Asl || op == SingleOperandOpcode::AslB,
        size == single_op_size(op),
        val < size.modulus(),
    ensures
        ({
            let r = spec_single_op(op, size, val as int, c);
            &&& (op == SingleOperandOpcode::Asr || op == SingleOperandOpcode::AsrB) ==> (signed(
                r.res as int,
                size,
            ) == signed(val as int, size) / 2 && (r.res as int) < size.modulus() && r.c == (val % 2
                == 1))
            &&& (op == SingleOperandOpcode::Asl || op == SingleOperandOpcode::AslB) ==> (r.res as int
                == (val * 2) % size.modulus() && r.c == msb(val as int, size))
            &&& r.v == (r.n != r.c)
            &&& r.z == (r.res == 0)
        }),
{
    if size == Size::Byte {
    } else {
    }
}

/// `swab` exchanges the two bytes of a word; N and Z are read from the new
/// low byte, and V and C are cleared.
pub proof fn lemma_swap_bytes(val: u16, c: bool)
    ensures
        spec_single_op(SingleOperandOpcode::Swab, Size::Word, val as int, c).res as int == (val
            % 256) * 256 + val / 256,
        spec_single_op(SingleOperandOpcode::Swab, Size::Word, val as int, c).n == (val / 256
            >= 128),
        spec_single_op(SingleOperandOpcode::Swab, Size::Word, val as int, c).z == (val / 256 == 0),
        !spec_single_op(SingleOperandOpcode::Swab, Size::Word, val as int, c).v,
        !spec_single_op(SingleOperandOpcode::Swab, Size::Word, val as int, c).c,
{
}

/// Two to the power `k`.
pub open spec fn p2(k: nat) -> nat
    decreases k,
{
    if k == 0 {
        1
    } else {
        2 * p2((k - 1) as nat)
    }
}

/// Two to the power `k`, for `k` up to 16.
pub fn pow2_u32(k: u32) -> (r: u32)
    requires
        k <= 16,
    ensures
        r == p2(k as nat),
        1 <= r <= 65536,
{
    proof {
        lemma_p2_bounds(k as nat);
    }
    let mut r: u32 = 1;
    let mut i: u32 = 0;
    while i < k
        invariant
            i <= k <= 16,
            r == p2(i as nat),
        decreases k - i,
    {
        proof {
            lemma_p2_bounds((i + 1) as nat);
        }
        r = r * 2;
        i = i + 1;
    }
    r
}

proof fn lemma_p2_bounds(i: nat)
    requires
        i <= 16,
    ensures
        1 <= p2(i) <= 65536,
{
    assert(p2(16) == 65536) by {
        reveal_with_fuel(p2, 17);
    }
    lemma_p2_le(i, 16);
    lemma_p2_le(0, i);
}

proof fn lemma_p2_le(i: nat, j: nat)
    requires
        i <= j,
    ensures
        p2(i) <= p2(j),
    decreases j,
{
    if i < j {
        lemma_p2_le(i, (j - 1) as nat);
    }
}

/// The outcome of `mul`: the 32-bit product as low and high words, and
/// the condition codes (overflow is always cleared).
#[derive(Debug, Clone, Copy, PartialEq, Eq, Structural)]
pub struct MulOut {
    pub lo: u16,
    pub hi: u16,
    pub n: bool,
    pub z: bool,
    pub c: bool,
}

/// The product of the two words as two's-complement numbers: low and high
/// words, sign, zero, and whether it does not fit in a word.
pub open spec fn spec_mul(src: u16, reg: u16) -> MulOut {
    let p = signed(src as int, Size::Word) * signed(reg as int, Size::Word);
    MulOut {
        lo: (p % 65536) as u16,
        hi: ((p / 65536) % 65536) as u16,
        n: p < 0,
        z: p == 0,
        c: !(-32768 <= p < 32768),
    }
}

/// The two's-complement value of a word, as an executable integer.
fn signed_word(v: u16) -> (r: i64)
    ensures
        r == signed(v as int, Size::Word),
        -32768 <= r < 32768,
{
    if v >= 32768 {
        v as i64 - 65536
    } else {
        v as i64
    }
}

/// The words of a 32-bit two's-complement value: low and high.
fn split_dword(p: i64) -> (r: (u16, u16))
    requires
        -0x8000_0000 <= p < 0x1_0000_0000,
    ensures
        r.0 == p % 65536,
        r.1 == (p / 65536) % 65536,
{
    let q = (p + 0x1_0000_0000) as u64;
    assert((p + 0x1_0000_0000) % 65536 == p % 65536);
    assert((p + 0x1_0000_0000) / 65536 == p / 65536 + 65536);
    assert(((p / 65536) + 65536) % 65536 == (p / 65536) % 65536);
    ((q % 65536) as u16, ((q / 65536) % 65536) as u16)
}

/// Signed multiplication of two words.
pub fn mul(src: u16, reg: u16) -> (r: MulOut)
    ensures
        r == spec_mul(src, reg),
{
    let s = signed_word(src);
    let g = signed_word(reg);
    assert(-0x4000_0000 <= s * g <= 0x4000_0000) by (nonlinear_arith)
        requires
            -32768 <= s < 32768,
            -32768 <= g < 32768,
    ;
    let p = s * g;
    let (lo, hi) = split_dword(p);
    MulOut { lo, hi, n: p < 0, z: p == 0, c: !(-32768 <= p && p < 32768) }
}

/// The outcome of `div`.
#[derive(Debug, Clone, Copy, PartialEq, Eq, Structural)]
pub enum DivOut {
    /// Division by zero: overflow and carry are set, nothing else changes.
    ByZero,
    /// The quotient does not fit in a word: the condition codes are set
    /// from it (overflow set) and the registers are left alone.
    Overflow { n: bool, z: bool },
    /// The quotient and remainder, stored in the register pair.
    Done { quot: u16, rem: u16, n: bool, z: bool },
    /// The quotient fits but the remainder does not fit in a signed word.
    RemainderTooLarge,
}

/// The 32-bit two's-complement value of a register pair.
pub open spec fn signed_dword(hi: u16, lo: u16) -> int {
    let x = hi * 65536 + lo;
    if x >= 0x8000_0000 {
        x - 0x1_0000_0000
    } else {
        x
    }
}

/// Division truncating toward zero.
pub open spec fn trunc_div(a: int, b: int) -> int
    recommends
        b > 0,
{
    if a >= 0 {
        a / b
    } else {
        -((-a) / b)
    }
}

/// Division of the signed 32-bit value of the pair (`hi`, `lo`) by the
/// word `src` taken as unsigned, quotient truncated toward zero.
pub open spec fn spec_div(src: u16, hi: u16, lo: u16) -> DivOut {
    if src == 0 {
        DivOut::ByZero
    } else {
        let d = signed_dword(hi, lo);
        let q = trunc_div(d, src as int);
        let r = d - q * src;
        if !(-32768 <= q < 32768) {
            DivOut::Overflow { n: q < 0, z: q == 0 }
        } else if !(-32768 <= r < 32768) {
            DivOut::RemainderTooLarge
        } else {
            DivOut::Done { quot: (q % 65536) as u16, rem: (r % 65536) as u16, n: q < 0, z: q == 0 }
        }
    }
}

/// Division of a register pair by a word.
pub fn div(src: u16, hi: u16, lo: u16) -> (r: DivOut)
    ensures
        r == spec_div(src, hi, lo),
{
    if src == 0 {
        return DivOut::ByZero;
    }
    let x: i64 = hi as i64 * 65536 + lo as i64;
    let d: i64 = if x >= 0x8000_0000 { x - 0x1_0000_0000 } else { x };
    let s: i64 = src as i64;
    let a: i64 = if d >= 0 { d } else { -d };
    let qa: i64 = a / s;
    assert(0 <= qa * s <= a) by (nonlinear_arith)
        requires
            s >= 1,
            a >= 0,
            qa == a / s,
    {
        vstd::arithmetic::div_mod::lemma_fundamental_div_mod(a as int, s as int);
    }
    let q: i64 = if d >= 0 { qa } else { -qa };
    assert(-0x8000_0000 <= q * s <= 0x8000_0000) by (nonlinear_arith)
        requires
            0 <= qa * s <= a,
            q == qa || q == -qa,
            a <= 0x8000_0000,
    ;
    let r: i64 = d - q * s;
    if !(-32768 <= q && q < 32768) {
        DivOut::Overflow { n: q < 0, z: q == 0 }
    } else if !(-32768 <= r && r < 32768) {
        DivOut::RemainderTooLarge
    } else {
        let (qw, _) = split_dword(q);
        let (rw, _) = split_dword(r);
        DivOut::Done { quot: qw, rem: rw, n: q < 0, z: q == 0 }
    }
}

/// The shift count of `ash`: the low six bits of the source, as a signed
/// number.
pub open spec fn ash_count(src: u16) -> int {
    let b = (src % 64) as int;
    if b >= 32 {
        b - 64
    } else {
        b
    }
}

/// Arithmetic shift of `reg` by the count in `src`: left for positive
/// counts, right (keeping the sign) for negative ones. `None` for counts of
/// sixteen or more either way.
pub open spec fn spec_ash(src: u16, reg: u16) -> Option<AluOut> {
    let s = ash_count(src);
    if s >= 16 || s <= -16 {
        None
    } else {
        let (res, carry) = if s > 0 {
            (((reg * p2(s as nat)) % 65536) as u16, (reg as int / p2((16 - s) as nat) as int) % 2 == 1)
        } else if s == 0 {
            (reg, false)
        } else {
            (
                ((signed(reg as int, Size::Word) / p2((-s) as nat) as int) % 65536) as u16,
                (reg as int / p2((-s - 1) as nat) as int) % 2 == 1,
            )
        };
        Some(
            AluOut {
                res,
                n: res >= 32768,
                z: res == 0,
                v: (reg >= 32768) != (res >= 32768),
                c: carry,
            },
        )
    }
}

/// Arithmetic shift of a register.
pub fn ash(src: u16, reg: u16) -> (r: Option<AluOut>)
    ensures
        r == spec_ash(src, reg),
{
    let b = src % 64;
    let s: i32 = if b >= 32 { b as i32 - 64 } else { b as i32 };
    if s >= 16 || s <= -16 {
        return None;
    }
    let (res, carry): (u16, bool) = if s > 0 {
        let p = pow2_u32(s as u32);
        let q = pow2_u32((16 - s) as u32);
        assert(reg as u32 * p <= 65535 * 65536) by (nonlinear_arith)
            requires
                p <= 65536,
        ;
        (((reg as u32 * p) % 65536) as u16, (reg as u32 / q) % 2 == 1)
    } else if s == 0 {
        (reg, false)
    } else {
        let t = (-s) as u32;
        let p = pow2_u32(t);
        let q = pow2_u32(t - 1);
        proof {
            lemma_p2_le(1, t as nat);
            reveal_with_fuel(p2, 2);
        }
        let v = signed_word(reg);
        let pi = p as i64;
        let fl: i64 = if v >= 0 { v / pi } else { -((-v + pi - 1) / pi) };
        assert(fl as int == (v as int) / (p as int)) by {
            if v < 0 {
                lemma_floor_div_neg(v as int, p as int);
            }
        }
        assert(-32768 <= fl <= 32767) by (nonlinear_arith)
            requires
                fl as int == (v as int) / (pi as int),
                pi >= 2,
                -32768 <= v < 32768,
        ;
        let (lo, _) = split_dword(fl);
        (lo, (reg as u32 / q) % 2 == 1)
    };
    Some(AluOut { res, n: res >= 32768, z: res == 0, v: (reg >= 32768) != (res >= 32768), c: carry })
}

proof fn lemma_floor_div_neg(v: int, p: int)
    requires
        v < 0,
        p > 0,
    ensures
        -((-v + p - 1) / p) == v / p,
{
    let a = -v;
    let q = (a + p - 1) / p;
    vstd::arithmetic::div_mod::lemma_fundamental_div_mod(a + p - 1, p);
    vstd::arithmetic::div_mod::lemma_fundamental_div_mod(v, p);
    let r1 = (a + p - 1) % p;
    assert(0 <= r1 < p);
    assert(0 <= v % p < p);
    assert(v == p * (v / p) + v % p);
    assert(a + p - 1 == p * q + r1);
    // v = -a = -(p*q + r1 - p + 1) = p*(-q) + (p - 1 - r1), with 0 <= p-1-r1 < p
    assert(v == p * (-q) + (p - 1 - r1)) by (nonlinear_arith)
        requires
            v == -a,
            a + p - 1 == p * q + r1,
    ;
    vstd::arithmetic::div_mod::lemma_fundamental_div_mod_converse(v, p, -q, p - 1 - r1);
}

/// The result and condition codes of `xor`; carry is left as it was.
pub open spec fn spec_xor(dst: u16, reg: u16, c: bool) -> AluOut {
    let r = dst ^ reg;
    AluOut { res: r, n: r >= 32768, z: r == 0, v: false, c }
}

pub fn xor(dst: u16, reg: u16, c: bool) -> (r: AluOut)
    ensures
        r == spec_xor(dst, reg, c),
{
    let r = dst ^ reg;
    AluOut { res: r, n: r >= 32768, z: r == 0, v: false, c }
}

/// `mul` leaves in the register pair (high word, low word) the 32-bit
/// two's-complement product of the two words taken as signed numbers; N and
/// Z describe the product and C is set exactly when it does not fit in a
/// signed word.
pub proof fn lemma_mul_product(src: u16, reg: u16)
    ensures
        signed_dword(spec_mul(src, reg).hi, spec_mul(src, reg).lo) == signed(src as int, Size::Word)
            * signed(reg as int, Size::Word),
        spec_mul(src, reg).n == (signed(src as int, Size::Word) * signed(reg as int, Size::Word)
            < 0),
        spec_mul(src, reg).z == (src == 0 || reg == 0),
{
    let a = signed(src as int, Size::Word);
    let b = signed(reg as int, Size::Word);
    let p = a * b;
    assert(-0x4000_0000 <= p <= 0x4000_0000) by (nonlinear_arith)
        requires
            -32768 <= a < 32768,
            -32768 <= b < 32768,
            p == a * b,
    ;
    assert(p == 0 <==> (a == 0 || b == 0)) by (nonlinear_arith)
        requires
            p == a * b,
    ;
    let lo = p % 65536;
    let q = p / 65536;
    vstd::arithmetic::div_mod::lemma_fundamental_div_mod(p, 65536);
    assert(p == q * 65536 + lo);
    assert(-16384 <= q <= 16384);
    if p >= 0 {
        assert(q % 65536 == q);
        assert(q * 65536 + lo < 0x8000_0000);
    } else {
        assert(q < 0);
        assert(q % 65536 == q + 65536);
        assert((q + 65536) * 65536 + lo == p + 0x1_0000_0000);
    }
}

/// A `div` that completes leaves a quotient and remainder that give back
/// the dividend (the register pair as a signed 32-bit number): quotient
/// times divisor plus remainder; the remainder is smaller than the divisor
/// and has the dividend's sign or is zero, and N and Z describe the
/// quotient.
pub proof fn lemma_div_quotient(src: u16, hi: u16, lo: u16)
    ensures
        spec_div(src, hi, lo) matches DivOut::Done { quot, rem, n, z } ==> ({
            let q = signed(quot as int, Size::Word);
            let r = signed(rem as int, Size::Word);
            &&& q * src + r == signed_dword(hi, lo)
            &&& -(src as int) < r < src
            &&& (r == 0 || (r < 0) == (signed_dword(hi, lo) < 0))
            &&& n == (q < 0)
            &&& z == (q == 0)
        }),
        src == 0 <==> spec_div(src, hi, lo) == DivOut::ByZero,
{
    if src != 0 {
        let d = signed_dword(hi, lo);
        let q = trunc_div(d, src as int);
        let r = d - q * src;
        let s = src as int;
        if d >= 0 {
            vstd::arithmetic::div_mod::lemma_fundamental_div_mod(d, s);
            assert(q == d / s);
            assert(r == d % s) by (nonlinear_arith)
                requires
                    r == d - q * s,
                    q == d / s,
                    d == s * (d / s) + d % s,
            ;
            assert(0 <= r < s);
        } else {
            vstd::arithmetic::div_mod::lemma_fundamental_div_mod(-d, s);
            assert(q == -((-d) / s));
            assert(r == -((-d) % s)) by (nonlinear_arith)
                requires
                    r == d - q * s,
                    q == -((-d) / s),
                    -d == s * ((-d) / s) + (-d) % s,
            ;
            assert(-s < r <= 0);
        }
    }
}

/// `xor` undoes itself: applying it twice with the same register gives
/// back the operand, and a word with itself gives zero; V is cleared and C
/// is kept.
pub proof fn lemma_xor_undoes(dst: u16, reg: u16, c: bool)
    ensures
        spec_xor(spec_xor(dst, reg, c).res, reg, c).res == dst,
        spec_xor(dst, dst, c).res == 0,
        spec_xor(dst, 0, c).res == dst,
        spec_xor(dst, reg, c).z == (dst == reg),
        !spec_xor(dst, reg, c).v,
        spec_xor(dst, reg, c).c == c,
{
    assert((dst ^ reg) ^ reg == dst && dst ^ dst == 0 && dst ^ 0 == dst && ((dst ^ reg == 0)
        == (dst == reg))) by (bit_vector);
}

/// `ash` by one place left gives what `asl` gives, and by one place right
/// (a count of -1) what `asr` gives: the same word and the same bit
/// shifted out into C; a count of zero leaves the word.
pub proof fn lemma_ash_by_one(reg: u16, c: bool)
    ensures
        spec_ash(1, reg) matches Some(o) && o.res == spec_single_op(
            SingleOperandOpcode::Asl,
            Size::Word,
            reg as int,
            c,
        ).res && o.c == spec_single_op(SingleOperandOpcode::Asl, Size::Word, reg as int, c).c,
        spec_ash(63, reg) matches Some(o) && o.res == spec_single_op(
            SingleOperandOpcode::Asr,
            Size::Word,
            reg as int,
            c,
        ).res && o.c == spec_single_op(SingleOperandOpcode::Asr, Size::Word, reg as int, c).c,
        spec_ash(0, reg) matches Some(o) && o.res == reg && !o.c,
{
    reveal_with_fuel(p2, 16);
    assert(p2(1) == 2);
    assert(p2(0) == 1);
    assert(p2(15) == 32768);
    let v = signed(reg as int, Size::Word);
    assert(ash_count(1) == 1);
    assert(ash_count(63) == -1);
    assert(ash_count(0) == 0);
    assert(((reg as int / 32768) % 2 == 1) == (reg >= 32768));
    if reg >= 32768 {
        assert(v == reg - 65536);
        assert(((v / 2) % 65536) == reg / 2 + 32768);
    } else {
        assert(((v / 2) % 65536) == reg / 2);
    }
    let o1 = spec_ash(1, reg)->0;
    assert(o1.res == ((reg * 2) % 65536) as u16);
    assert(o1.c == ((reg as int / 32768) % 2 == 1));
    let o2 = spec_ash(63, reg)->0;
    assert(o2.res == ((v / 2) % 65536) as u16);
    assert(o2.c == ((reg as int / 1) % 2 == 1));
}

} // verus!
