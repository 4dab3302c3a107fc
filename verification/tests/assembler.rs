use pdp11::assembler::assembler::{assemble, assemble_raw, assemble_with, try_assemble, AsmError};
use pdp11::assembler::flat;

fn to_u16_vec(arr: &Vec<u8>) -> Vec<u16> {
    assert_eq!(arr.len() % 2, 0);
    let mut out = Vec::new();
    for chunk in arr.chunks(2) {
        out.push((chunk[0] as u16) | (chunk[1] as u16) << 8);
    }
    out
}

fn text(prog: &str) -> Vec<u8> {
    assemble_raw(prog).text
}

fn text_flat(prog: &str) -> Vec<u8> {
    flat::assemble(prog)
}

/// Both front ends: the one that keeps the symbols and the flat one.
fn both() -> [fn(&str) -> Vec<u8>; 2] {
    [text, text_flat]
}

#[test]
fn assembler_halt() {
    for text in both() {
        let prog = "halt";
        let bin = to_u16_vec(&text(prog));
        assert_eq!(bin.len(), 1);
        assert_eq!(bin[0], 0);
    }
}

#[test]
fn assembler_mov_reg_reg() {
    for text in both() {
        let prog = "mov r0, r1";
        let bin = to_u16_vec(&text(prog));
        assert_eq!(bin.len(), 1);
        assert_eq!(bin[0], 0o10001);
    }
}

#[test]
fn assembler_mov_mem_mem() {
    for text in both() {
        let prog = "mov (r0)+, -(r1)";
        let bin = to_u16_vec(&text(prog));
        assert_eq!(bin.len(), 1);
        assert_eq!(bin[0], 0o12041);
    }
}

#[test]
fn branch() {
    let prog = r#"
            label:
                br label"#;
    let bin = to_u16_vec(&flat::assemble(prog));
    assert_eq!(bin.len(), 1);
    assert_eq!(bin[0], 0o000777);
}

#[test]
fn as_halt() {
    let prog = "halt";
    let bin = to_u16_vec(&flat::assemble(prog));
    assert_eq!(bin.len(), 1);
    assert_eq!(bin[0], 0);
}

#[test]
fn as_mov_reg_reg() {
    let prog = "mov r0, r1";
    let bin = to_u16_vec(&flat::assemble(prog));
    assert_eq!(bin.len(), 1);
    assert_eq!(bin[0], 0o10001);
}

#[test]
fn as_mov_mem_mem() {
    let prog = "mov (r0)+, -(r1)";
    let bin = to_u16_vec(&flat::assemble(prog));
    assert_eq!(bin.len(), 1);
    assert_eq!(bin[0], 0o12041);
}

#[test]
fn branch_1() {
    let prog = r#"
            label:
                br label"#;
    let bin = to_u16_vec(&text(prog));
    assert_eq!(bin.len(), 1);
    assert_eq!(bin[0], 0o000777);
}

#[test]
fn branch_2() {
    let prog = r#"
            label: br label"#;
    let bin = to_u16_vec(&text(prog));
    assert_eq!(bin.len(), 1);
    assert_eq!(bin[0], 0o000777);
}

#[test]
fn branch_tmpb_1() {
    let prog = r#"
            1:
                br 1b"#;
    let bin = to_u16_vec(&text(prog));
    assert_eq!(bin.len(), 1);
    assert_eq!(bin[0], 0o000777);
}

#[test]
fn branch_tmpb_2() {
    let prog = r#"
            1: br 1b"#;
    let bin = to_u16_vec(&text(prog));
    assert_eq!(bin.len(), 1);
    assert_eq!(bin[0], 0o000777);
}

#[test]
fn branch_tmpf() {
    let prog = r#"
                br 34f
            34:"#;
    let bin = to_u16_vec(&text(prog));
    assert_eq!(bin.len(), 1);
    assert_eq!(bin[0], 0o400);
}

#[test]
fn branch_tmpb_val_1() {
    let prog = r#"
            1:
                .word 0
            mov     1b, r0"#;
    let bin = to_u16_vec(&text(prog));
    assert_eq!(bin.len(), 3);
    assert_eq!(bin[1], 0o016700);
    assert_eq!(bin[2], -6i16 as u16);
}

#[should_panic]
#[test]
fn branch_tmpb_never_defined_a() {
    let prog = r#"
                br 1b"#;
    assemble_raw(prog);
}

#[should_panic]
#[test]
fn branch_tmpb_never_defined_b() {
    let prog = r#"
                mov 23b, r0"#;
    assemble_raw(prog);
}

#[should_panic]
#[test]
fn branch_tmpf_never_defined_a() {
    let prog = r#"
                br 1f"#;
    assemble_raw(prog);
}

#[should_panic]
#[test]
fn branch_tmpf_never_defined_b() {
    let prog = r#"
                mov 534f, r0"#;
    assemble_raw(prog);
}

#[test]
fn assembler_numbers() {
    for text in both() {
        let prog = r#"
                .word 0
            "#;
        let bin = to_u16_vec(&text(prog));
        assert_eq!(bin.len(), 1);
        assert_eq!(bin[0], 0o0);

        let prog = r#"
                .word 7
            "#;
        let bin = to_u16_vec(&text(prog));
        assert_eq!(bin.len(), 1);
        assert_eq!(bin[0], 0o7);

        let prog = r#"
                .word 17
            "#;
        let bin = to_u16_vec(&text(prog));
        assert_eq!(bin.len(), 1);
        assert_eq!(bin[0], 0o17);

        let prog = r#"
                .word 0.
            "#;
        let bin = to_u16_vec(&text(prog));
        assert_eq!(bin.len(), 1);
        assert_eq!(bin[0], 0);

        let prog = r#"
                .word 7.
            "#;
        let bin = to_u16_vec(&text(prog));
        assert_eq!(bin.len(), 1);
        assert_eq!(bin[0], 7);

        let prog = r#"
                .word 17.
            "#;
        let bin = to_u16_vec(&text(prog));
        assert_eq!(bin.len(), 1);
        assert_eq!(bin[0], 17);
    }
}

#[test]
fn assembler_negative_numbers() {
    for text in both() {
        let prog = r#"
                .word -0
            "#;
        let bin = to_u16_vec(&text(prog));
        assert_eq!(bin.len(), 1);
        assert_eq!(bin[0], 0o0);

        let prog = r#"
                .word -7
            "#;
        let bin = to_u16_vec(&text(prog));
        assert_eq!(bin.len(), 1);
        assert_eq!(bin[0], -0o7i16 as u16);

        let prog = r#"
                .word 17
            "#;
        let bin = to_u16_vec(&text(prog));
        assert_eq!(bin.len(), 1);
        assert_eq!(bin[0], 0o17);

        let prog = r#"
                .word 0.
            "#;
        let bin = to_u16_vec(&text(prog));
        assert_eq!(bin.len(), 1);
        assert_eq!(bin[0], 0);

        let prog = r#"
                .word 7.
            "#;
        let bin = to_u16_vec(&text(prog));
        assert_eq!(bin.len(), 1);
        assert_eq!(bin[0], 7);

        let prog = r#"
                .word 17.
            "#;
        let bin = to_u16_vec(&text(prog));
        assert_eq!(bin.len(), 1);
        assert_eq!(bin[0], 17);
    }
}

#[test]
#[should_panic]
fn byte_size() {
    let prog = r#"
            .byte 400
        "#;
    assemble_raw(prog);
}

#[test]
#[should_panic]
fn word_size() {
    let prog = r#"
            .word 200000
        "#;
    assemble_raw(prog);
}

#[test]
fn assembler_char_literal() {
    for text in both() {
        let prog = r#"
                .byte 'A
            "#;
        let bin = text(prog);
        assert_eq!(bin.len(), 1);
        assert_eq!(bin[0], 0x41);
    }
}

#[test]
fn assembler_symbol() {
    for text in both() {
        let prog = r#"
                SYM = 37
                mov #SYM, r0
            "#;
        let bin = to_u16_vec(&text(prog));
        assert_eq!(bin.len(), 2);
        assert_eq!(bin[1], 0o37);
    }
}

#[test]
fn symbol_chain() {
    let prog = r#"
            a = 37
            b = a
            mov #b, r0
        "#;
    let bin = to_u16_vec(&text(prog));
    assert_eq!(bin.len(), 2);
    assert_eq!(bin[1], 0o37);
}

#[test]
fn assembler_forward_symbol() {
    for text in both() {
        let prog = r#"
                a = b
                b = 37
                mov #a, r0
            "#;
        let bin = to_u16_vec(&text(prog));
        assert_eq!(bin.len(), 2);
        assert_eq!(bin[1], 0o37);
    }
}

#[test]
#[should_panic]
fn assembler_not_too_forward() {
    let prog = r#"
            a = b
            b = c
            c = 37
            mov #a, r0
        "#;
    assemble_raw(prog);
}

#[test]
#[should_panic]
fn never_defined() {
    let prog = r#"
            a = b
            mov #a, r0
        "#;
    assemble_raw(prog);
}

#[test]
fn symbol_byte() {
    let prog = r#"
            a = 37
            .byte a
        "#;
    let bin = text(prog);
    assert_eq!(bin.len(), 1);
    assert_eq!(bin[0], 0o37);
}

#[test]
fn symbol_word() {
    let prog = r#"
            a = 777
            .word a
        "#;
    let bin = to_u16_vec(&text(prog));
    assert_eq!(bin.len(), 1);
    assert_eq!(bin[0], 0o777);
}

#[test]
fn expr_word() {
    let prog = r#"
            .word 2 + 1
        "#;
    let bin = to_u16_vec(&text(prog));
    assert_eq!(bin.len(), 1);
    assert_eq!(bin[0], 0o3);

    let prog = r#"
            .word 1 + 1 ! 2
        "#;
    let bin = to_u16_vec(&text(prog));
    assert_eq!(bin.len(), 1);
    assert_eq!(bin[0], 0o2);

    let prog = r#"
            .word 1 ! 2 + 1
        "#;
    let bin = to_u16_vec(&text(prog));
    assert_eq!(bin.len(), 1);
    assert_eq!(bin[0], 0o4);
}

#[test]
fn expr_byte() {
    let prog = r#"
            .byte 2 + 1
        "#;
    let bin = &text(prog);
    assert_eq!(bin.len(), 1);
    assert_eq!(bin[0], 0o3);

    let prog = r#"
            .byte 1 + 1 ! 2
        "#;
    let bin = &text(prog);
    assert_eq!(bin.len(), 1);
    assert_eq!(bin[0], 0o2);

    let prog = r#"
            .byte 1 ! 2 + 1
        "#;
    let bin = &text(prog);
    assert_eq!(bin.len(), 1);
    assert_eq!(bin[0], 0o4);
}

#[test]
#[should_panic]
fn expr_byte_overflow() {
    let prog = r#"
            .byte 377 + 1
        "#;
    let bin = &text(prog);
    assert_eq!(bin.len(), 1);
    assert_eq!(bin[0], 0o0);
}

#[test]
fn expr_index() {
    let prog = r#"
            FIELD_A = 2 + 2
            mov FIELD_A(r0), r1
        "#;
    let bin = to_u16_vec(&text(prog));
    assert_eq!(bin.len(), 2);
    assert_eq!(bin[1], 0o4);

    let prog = r#"
            FIELD_A = 4
            mov FIELD_A + 2(r0), r1
        "#;
    let bin = to_u16_vec(&text(prog));
    assert_eq!(bin.len(), 2);
    assert_eq!(bin[1], 0o6);
}

#[test]
fn period_expr() {
    let prog = r#"
            .word .
        "#;
    let bin = &text(prog);
    assert_eq!(bin.len(), 2);
    assert_eq!(bin[0], 0o0);

    let prog = r#"
            .word ., .
        "#;
    let bin = to_u16_vec(&text(prog));
    assert_eq!(bin.len(), 2);
    assert_eq!(bin[0], 0o0);
    assert_eq!(bin[1], 0o2);

    let prog = r#"
            clr r0
            mov #., r0
        "#;
    let bin = to_u16_vec(&text(prog));
    assert_eq!(bin.len(), 3);
    assert_eq!(bin[2], 0o2);

    let prog = r#"
            .word 0, 0
            loc = .
            .word loc
        "#;
    let bin = to_u16_vec(&text(prog));
    assert_eq!(bin.len(), 3);
    assert_eq!(bin[2], 0o4);

    let prog = r#"
            .word 0, 0
            .word loc
            loc = .
        "#;
    let bin = to_u16_vec(&text(prog));
    assert_eq!(bin.len(), 3);
    assert_eq!(bin[2], 0o6);
}

#[test]
fn period_assign() {
    let prog = r#"
            . = 12
        "#;
    let bin = &text(prog);
    assert_eq!(bin.len(), 10);

    let prog = r#"
            . = 2
            mov #., r0
        "#;
    let bin = to_u16_vec(&text(prog));
    assert_eq!(bin.len(), 3);
    assert_eq!(bin[2], 2);
}

#[test]
fn even() {
    let prog = r#"
            .byte 0
        "#;
    let bin = text(prog);
    assert_eq!(bin.len(), 1);

    let prog = r#"
            .byte 0
            .even
        "#;
    let bin = text(prog);
    assert_eq!(bin.len(), 2);

    let prog = r#"
            . = 11
        "#;
    let bin = text(prog);
    assert_eq!(bin.len(), 9);

    let prog = r#"
            . = 11
            .even
        "#;
    let bin = text(prog);
    assert_eq!(bin.len(), 10);
}

#[test]
fn eis() {
    let bin = to_u16_vec(&text(r#"mul r1, r0"#));
    assert_eq!(bin, [0o070001]);

    let bin = to_u16_vec(&text(r#"div @(r2)+, r4"#));
    assert_eq!(bin, [0o071432]);

    let bin = to_u16_vec(&text(r#"ash #23, r5"#));
    assert_eq!(bin, [0o072527, 0o23]);

    let bin = to_u16_vec(&text(r#"label: ashc label, r5"#));
    assert_eq!(bin, [0o073567, 0o177774]);

    let bin = to_u16_vec(&text(r#"label: xor label, r5"#));
    assert_eq!(bin, [0o074567, 0o177774]);
}

#[test]
#[should_panic]
fn div_odd() {
    assemble_raw(r#"div @(r2).text+, r5"#);
}

#[test]
#[should_panic]
fn label_redef_0() {
    assemble_raw(
        r#"
        label:
        label:
        "#,
    );
}

#[test]
#[should_panic]
fn label_redef_1() {
    assemble_raw(
        r#"
        label:
        label = 1
        "#,
    );
}

#[test]
#[should_panic]
fn label_redef_2() {
    assemble_raw(
        r#"
        label = 1
        label:
        "#,
    );
}

#[test]
fn label_redef_3() {
    let prog = assemble_raw(
        r#"
        label = 1
        label = 2
        "#,
    );
    assert_eq!(prog.symbol("label").unwrap().val, 2);
}

// The assembler's own error cases, one input each.

#[test]
fn error_undefined_tmp_label() {
    assert!(matches!(assemble_with("br 1b", true), Err(AsmError::TmpLabelUndefined(_))));
}

#[test]
fn error_label_conflict() {
    assert!(matches!(assemble_with("label:\nlabel:\n", true), Err(AsmError::LabelConflict(_))));
}

#[test]
fn error_byte_range() {
    assert!(matches!(assemble_with(".byte 400\n", true), Err(AsmError::ByteRange(_))));
}

#[test]
fn error_odd_division_register() {
    assert!(matches!(assemble_with("div r0, r3", true), Err(AsmError::OddDivisionRegister(_))));
}

#[test]
fn error_syntax() {
    assert!(matches!(assemble_with("mov r0", true), Err(AsmError::Syntax(_))));
}

#[test]
fn assemble_needs_start() {
    assert!(matches!(try_assemble("halt"), Err(AsmError::NoStart)));
    let aout = assemble("_start: halt\n");
    assert_eq!(aout.entry_point, 0);
    assert_eq!(aout.text, vec![0, 0]);
}

#[test]
fn branch_offsets_both_ways() {
    let bin = to_u16_vec(&text("br 1f\nhalt\n1: halt\n"));
    assert_eq!(bin, [0o000401, 0, 0]);
    let bin = to_u16_vec(&text("1: halt\nbr 1b\n"));
    assert_eq!(bin, [0, 0o000776]);
}

#[test]
fn relative_operand_offsets_of_both_conventions() {
    let prog = "jsr pc, fun\nhalt\nfun: rts pc";
    let raw = to_u16_vec(&assemble_raw(prog).text);
    assert_eq!(raw, [0o004767, 0o2, 0o0, 0o000207]);
    let flat_bin = to_u16_vec(&flat::assemble(prog));
    assert_eq!(flat_bin, [0o004767, 0o4, 0o0, 0o000207]);
}
