use pdp11::decoder::decode;
use pdp11::disassembler::{disassemble, remove_long_zeros};
use pdp11::isa::{Ins, Target};
use pdp11::mem::as_byte_slice;

#[test]
fn disassemble_pieces() {
    let bin = as_byte_slice(&[0o010001, 0o012700, 0o23, 0o000007, 0o000777]);
    let d = disassemble(&bin);
    assert_eq!(d.len(), 4);
    assert_eq!((d[0].addr, d[0].repr.clone()), (0, vec![0o010001]));
    assert_eq!((d[1].addr, d[1].repr.clone()), (2, vec![0o012700, 0o23]));
    assert_eq!((d[2].addr, d[2].repr.clone()), (6, vec![0o000007]));
    assert!(d[2].ins.is_none());
    assert_eq!((d[3].addr, d[3].repr.clone()), (8, vec![0o000777]));
}

#[test]
fn truncated_last_instruction_is_a_data_word() {
    let bin = as_byte_slice(&[0o012700]);
    let d = disassemble(&bin);
    assert_eq!(d.len(), 1);
    assert!(d[0].ins.is_none());
}

#[test]
fn listing_lines() {
    let bin = as_byte_slice(&[0o010001, 0o000777]);
    let d = disassemble(&bin);
    let blank = " ".repeat(9);
    assert_eq!(d[0].display(), format!("0o000000\t0o010001 {blank}{blank}\tmov\tr0, r1"));
    assert_eq!(d[1].display(), format!("0o000002\t0o000777 {blank}{blank}\tbr\t0o2"));
    let bin = as_byte_slice(&[0o000007]);
    let d = disassemble(&bin);
    assert_eq!(d[0].display(), format!("0o000000\t0o000007 {blank}{blank}\t"));
}

#[test]
fn instruction_text() {
    let ins = decode(&[0o012700, 0o23]).unwrap();
    assert_eq!(ins.display(), "mov\t#0o23, r0");
    // mov 1b, r0 with the label two words back: relative operand
    let ins = decode(&[0o016700, 0o177772]).unwrap();
    assert_eq!(ins.display(), "mov\t. + 0o177774, r0");
    assert_eq!(ins.display_with_pc(0o402), "mov\t0o376, r0");
    let ins = decode(&[0o004737, 0o416]).unwrap();
    assert_eq!(ins.fmt_with_pc(0o400), "jsr\tpc,@#0o416");
    let ins = decode(&[0o000207]).unwrap();
    assert_eq!(ins.display(), "rts\tpc");
    let ins = decode(&[0o104405]).unwrap();
    assert_eq!(ins.display(), "trap\t0o5");
    let ins = Ins::decode(&[0o072527, 0o23]).unwrap();
    assert_eq!(ins.display(), "ash\tr5, #0o23");
    assert_eq!(Target::Offset(0o376).display(), ". + 0o177776");
    assert_eq!(Target::Offset(1).fmt_with_pc(0o400), "0o404");
}

#[test]
fn long_zero_runs_keep_their_ends() {
    let mut words = vec![0u16; 12];
    words.push(0o010001);
    words.extend(vec![0u16; 3]);
    words.push(0o010001);
    words.extend(vec![0u16; 10]);
    let bin = as_byte_slice(&words);
    let mut d = disassemble(&bin);
    assert_eq!(d.len(), 27);
    remove_long_zeros(&mut d);
    let addrs: Vec<u16> = d.iter().map(|p| p.addr).collect();
    let mut expect = vec![0, 22, 24, 26, 28, 30, 32];
    expect.extend((34..54).step_by(2));
    assert_eq!(addrs, expect);
}

#[test]
fn printed_register_instructions_assemble_back() {
    for w in [0o010001u16, 0o000207, 0o000000, 0o005003] {
        let text = decode(&[w]).unwrap().display();
        let bin = pdp11::assembler::assembler::assemble_raw(&text).text;
        assert_eq!(bin, as_byte_slice(&[w]), "{text}");
    }
}

#[test]
fn targets_print_labels_by_name() {
    let names = vec![b"start".to_vec(), b"loop".to_vec()];
    assert_eq!(Target::Label(1).display_named(&names), "loop");
    assert_eq!(Target::TmpLabelF(12).display_named(&names), "12f");
    assert_eq!(Target::TmpLabelB(3).display_named(&names), "3b");
    assert_eq!(Target::Offset(0o376).display_named(&names), Target::Offset(0o376).display());
}
