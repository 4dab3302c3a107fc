use pdp11::assembler::ir::{Cmd, Label, ResolvedError, Stmt};
use pdp11::isa::{AddrMode, Atom, BranchIns, BranchOpcode, Expr, Extra, JmpIns, JmpOpcode, Operand, Reg, Target};
use pdp11::emulator::emulator_state::EmulatorState;
use pdp11::emulator::io::{Clock, MMIOHandler};
use pdp11::aout::{Aout, AoutError};
use pdp11::assembler::helpers::parse_int;
use pdp11::assembler::lexer::lex;
use pdp11::assembler::misc::{EvalError, Mode, Value};
use pdp11::assembler::tmp_f_tracker::TmpFTracker;
use pdp11::decoder::decode;
use pdp11::flags::{flags, Flags};
use pdp11::isa::{Ins, Op};
use pdp11::mem::{as_byte_slice, as_word_slice};

#[test]
fn aout_write_then_read_gives_text_and_entry_back() {
    let mut aout = Aout::empty();
    aout.text = vec![1, 2, 3, 4, 5, 6];
    aout.entry_point = 4;
    let bytes = aout.write_to();
    assert_eq!(bytes.len(), 16 + 6);
    assert_eq!(&bytes[0..2], &[0o407u16 as u8, (0o407u16 >> 8) as u8]);
    let back = Aout::read_from(&bytes);
    assert_eq!(back.text, aout.text);
    assert_eq!(back.entry_point, 4);
}

#[test]
fn aout_errors() {
    assert_eq!(Aout::try_read_from(&[0u8; 4]).unwrap_err(), AoutError::Truncated);
    let mut bad = vec![0u8; 16];
    bad[0] = 1;
    assert_eq!(Aout::try_read_from(&bad).unwrap_err(), AoutError::BadMagic(1));
    let mut aout = Aout::empty();
    aout.text = vec![0, 0];
    let mut bytes = aout.write_to();
    bytes.push(9);
    assert_eq!(Aout::try_read_from(&bytes).unwrap_err(), AoutError::TrailingBytes);
}

#[test]
fn parse_int_values() {
    assert_eq!(parse_int("17", 8), 0o17);
    assert_eq!(parse_int("17", 10), 17);
    assert_eq!(parse_int("-1", 10), 0xffff);
    assert_eq!(parse_int("177777", 8), 0xffff);
}

#[test]
fn lexer_reports_first_bad_position() {
    assert!(lex(b"mov r0, r1").is_ok());
    assert_eq!(lex(b"mov r0, `"), Err(8));
}

#[test]
fn value_arithmetic() {
    let a = Value::new(0xffff, Mode::Abs);
    let b = Value::new(2, Mode::Abs);
    assert_eq!(a.add(b), Ok(Value::new(1, Mode::Abs)));
    assert_eq!(b.sub(a), Ok(Value::new(3, Mode::Abs)));
    assert_eq!(a.bitand(b), Ok(Value::new(2, Mode::Abs)));
    assert_eq!(Value::new(1, Mode::Abs).bitor(b), Ok(Value::new(3, Mode::Abs)));
    let t1 = Value::new(10, Mode::Text);
    let t2 = Value::new(4, Mode::Text);
    assert_eq!(t1.sub(t2), Ok(Value::new(6, Mode::Abs)));
    assert_eq!(t1.add(t2), Err(EvalError::IllegalExpr(t1, Op::Add, t2)));
}

#[test]
fn tmp_f_tracker_resolves_waiting_lines() {
    let mut t = TmpFTracker::new();
    assert_eq!(t.get(3, 1), None);
    t.need(3, 1);
    t.need(4, 2);
    t.found(1, 0o20, Mode::Text);
    assert_eq!(t.get(3, 1), Some((0o20, Mode::Text)));
    assert_eq!(t.get(4, 2), None);
    assert_eq!(t.get(4, 1), None);
}

#[test]
fn decode_then_emit_gives_the_words_back() {
    for words in [
        vec![0o012041u16],
        vec![0o016700, 0o177772],
        vec![0o000777],
        vec![0o004737, 0o416],
        vec![0o072527, 0o23],
        vec![0o000000],
    ] {
        let ins = Ins::decode(&words).unwrap();
        let mut out = Vec::new();
        ins.emit(&mut out);
        assert_eq!(as_word_slice(&out), words);
        assert_eq!(ins.size() as usize, 2 * words.len());
    }
    assert!(decode(&[0o000007]).is_none());
}

#[test]
fn extended_instructions_decode_only_with_the_full_set() {
    assert!(decode(&[0o070001]).is_none());
    assert!(decode(&[0o072527, 0o23]).is_none());
    assert!(matches!(Ins::decode(&[0o070001]), Some(Ins::Eis(_))));
    assert!(decode(&[0o010001]).is_some());
}

#[test]
fn words_and_bytes() {
    let w = vec![0x1234u16, 0xabcd];
    let b = as_byte_slice(&w);
    assert_eq!(b, vec![0x34, 0x12, 0xcd, 0xab]);
    assert_eq!(as_word_slice(&b), w);
}

#[test]
fn flag_bits() {
    assert_eq!(flags().to_bits(), 0);
    assert_eq!(flags().c().to_bits(), 1);
    assert_eq!(flags().v().to_bits(), 2);
    assert_eq!(flags().z().to_bits(), 4);
    assert_eq!(flags().n().to_bits(), 8);
    assert_eq!(Flags::default(), flags());
}

#[test]
fn parse_int_letters_and_plus_sign() {
    assert_eq!(parse_int("ff", 16), 255);
    assert_eq!(parse_int("FF", 16), 255);
    assert_eq!(parse_int("z", 36), 35);
    assert_eq!(parse_int("+17", 8), 0o17);
    assert_eq!(parse_int("-+1", 10), 0xffff);
}

#[test]
fn clock_bit_set_once_every_delay_ticks() {
    let mut st = EmulatorState::new();
    let mut c = Clock::new();
    for round in 0..2 {
        for _ in 0..Clock::DELAY_TICKS - 1 {
            assert_eq!(c.tick(&mut st), Ok(None));
            assert_eq!(c.clock, round == 1);
        }
        assert_eq!(c.tick(&mut st), Ok(None));
        assert!(c.clock);
        assert_eq!(c.ticks_until_ready, Clock::DELAY_TICKS);
    }
}

#[test]
fn check_resolved_names_the_first_unresolved_part() {
    let words = Stmt {
        label_def: Label::Absent,
        cmd: Some(Cmd::Words(vec![
            Expr::Atom(Atom::Val(1)),
            Expr::Atom(Atom::SymbolRef(3)),
            Expr::Atom(Atom::Loc),
        ])),
    };
    assert!(matches!(
        words.check_resolved(),
        Err(ResolvedError::Expr(Expr::Atom(Atom::SymbolRef(3))))
    ));
    let branch = Stmt {
        label_def: Label::Absent,
        cmd: Some(Cmd::Ins(Ins::Branch(BranchIns { op: BranchOpcode::Br, target: Target::Label(2) }))),
    };
    assert!(matches!(branch.check_resolved(), Err(ResolvedError::Target(Target::Label(2)))));
    let done = Stmt { label_def: Label::Absent, cmd: Some(Cmd::Words(vec![Expr::Atom(Atom::Val(7))])) };
    assert!(done.check_resolved().is_ok());
    let empty = Stmt { label_def: Label::Absent, cmd: None };
    assert!(empty.check_resolved().is_ok());
}

#[test]
fn an_immediate_marked_pc_index_operand_reads_back_relative() {
    let ins = Ins::Jmp(JmpIns {
        op: JmpOpcode::Jmp,
        dst: Operand { mode: AddrMode::Index, reg: Reg::PC, extra: Extra::Imm(Expr::Atom(Atom::Val(6))) },
    });
    let mut out = Vec::new();
    ins.emit(&mut out);
    let words = as_word_slice(&out);
    assert_eq!(words, vec![0o000167, 6]);
    let back = Ins::decode(&words).unwrap();
    assert!(matches!(
        back,
        Ins::Jmp(JmpIns { dst: Operand { extra: Extra::Rel(Expr::Atom(Atom::Val(6))), .. }, .. })
    ));
}
