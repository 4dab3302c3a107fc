use pdp11::assembler::flat::assemble;
use pdp11::constants::DATA_START;
use pdp11::emulator::emulator::{Device, Emulator};
use pdp11::emulator::io::{PipePrinter, Teleprinter};
use pdp11::flags::{flags, Flags};
use pdp11::isa::Reg;

const T: bool = true;
const F: bool = false;

fn run_branch(ins: &str, flags: Flags, should_take: bool) {
    let source = format!(
        r#"
        {ins} taken

        mov #1, r0
        halt

    taken:
        mov #2, r0
        halt
    "#
    );

    let bin = assemble(&source);
    let mut emu = Emulator::new();
    emu.load_image(&bin, DATA_START).unwrap();
    emu.get_state_mut().get_status_mut().set_flags(flags.to_bits());
    emu.run_at(DATA_START).unwrap();
    let r0 = emu.get_state().reg_read_word(Reg::R0);
    let taken = match r0 {
        1 => false,
        2 => true,
        _ => panic!("Invalid r0: {r0:o}"),
    };
    assert_eq!(taken, should_take, "branch");
}

// Because each test is run on a fresh emulator, unaffected flags will be false
fn run_single(ins: &str, r0_init: u16, r0_exp: u16, flags_exp: Flags) {
    let source = format!(
        r#"
            {ins} r0
            halt
        "#
    );
    let bin = assemble(&source);
    let mut emu = Emulator::new();
    emu.load_image(&bin, DATA_START).unwrap();
    emu.get_state_mut().reg_write_word(Reg::R0, r0_init);
    emu.run_at(DATA_START).unwrap();
    assert_eq!(emu.get_state().reg_read_word(Reg::R0), r0_exp);
    let status = emu.get_state().get_status();
    assert_eq!(status.get_carry(), flags_exp.c, "carry flag");
    assert_eq!(status.get_overflow(), flags_exp.v, "overflow flag");
    assert_eq!(status.get_zero(), flags_exp.z, "zero flag");
    assert_eq!(status.get_negative(), flags_exp.n, "negative flag");
    assert_eq!(emu.get_state().reg_read_word(Reg::PC), DATA_START + bin.len() as u16);
}

fn run_multi(ins: &str, r0_init: u16, r0_exp: u16, flags_init: Flags, flags_exp: Flags) {
    let source = format!(
        r#"
            {ins} r0
            halt
        "#
    );
    let bin = assemble(&source);
    let mut emu = Emulator::new();
    emu.load_image(&bin, DATA_START).unwrap();
    emu.get_state_mut().reg_write_word(Reg::R0, r0_init);
    emu.get_state_mut().get_status_mut().set_flags(flags_init.to_bits());
    emu.run_at(DATA_START).unwrap();
    assert_eq!(emu.get_state().reg_read_word(Reg::R0), r0_exp);
    let status = emu.get_state().get_status();
    assert_eq!(status.get_carry(), flags_exp.c, "carry flag");
    assert_eq!(status.get_overflow(), flags_exp.v, "overflow flag");
    assert_eq!(status.get_zero(), flags_exp.z, "zero flag");
    assert_eq!(status.get_negative(), flags_exp.n, "negative flag");
    assert_eq!(emu.get_state().reg_read_word(Reg::PC), DATA_START + bin.len() as u16);
}

#[test]
fn test_br() {
    run_branch("br", flags(), true);
    run_branch("br", flags().n(), true);
    run_branch("br", flags().z(), true);
    run_branch("br", flags().n().z().v().c(), true);
}

#[test]
fn test_beq() {
    run_branch("beq", flags(), false);
    run_branch("beq", flags().n(), false);
    run_branch("beq", flags().z(), true);
    run_branch("beq", flags().n().z().v().c(), true);
}

#[test]
fn test_bne() {
    run_branch("bne", flags(), true);
    run_branch("bne", flags().n(), true);
    run_branch("bne", flags().z(), false);
    run_branch("bne", flags().n().z().v().c(), false);
}

#[test]
fn test_bni() {
    run_branch("bmi", flags(), false);
    run_branch("bmi", flags().n(), true);
    run_branch("bmi", flags().z(), false);
    run_branch("bmi", flags().n().z().v().c(), true);
}

#[test]
fn test_bpl() {
    run_branch("bpl", flags(), true);
    run_branch("bpl", flags().n(), false);
    run_branch("bpl", flags().z(), true);
    run_branch("bpl", flags().n().z().v().c(), false);
}

#[test]
fn test_bcs() {
    run_branch("bcs", flags(), false);
    run_branch("bcs", flags().n(), false);
    run_branch("bcs", flags().c(), true);
    run_branch("bcs", flags().n().z().v().c(), true);
}

#[test]
fn test_bcc() {
    run_branch("bcc", flags(), true);
    run_branch("bcc", flags().n(), true);
    run_branch("bcc", flags().c(), false);
    run_branch("bcc", flags().n().z().v().c(), false);
}

#[test]
fn test_bvs() {
    run_branch("bvs", flags(), false);
    run_branch("bvs", flags().n(), false);
    run_branch("bvs", flags().v(), true);
    run_branch("bvs", flags().n().z().v().c(), true);
}

#[test]
fn test_bvc() {
    run_branch("bvc", flags(), true);
    run_branch("bvc", flags().n(), true);
    run_branch("bvc", flags().v(), false);
    run_branch("bvc", flags().n().z().v().c(), false);
}

#[test]
fn test_blt() {
    run_branch("blt", flags(), false);
    run_branch("blt", flags().n().v(), false);
    run_branch("blt", flags().n().z().v().c(), false);
    run_branch("blt", flags().n(), true);
    run_branch("blt", flags().v(), true);
    run_branch("blt", flags().v().c(), true);
    run_branch("blt", flags().n().z(), true);
}

#[test]
fn test_bge() {
    run_branch("bge", flags(), true);
    run_branch("bge", flags().n().v(), true);
    run_branch("bge", flags().n().z().v().c(), true);
    run_branch("bge", flags().n(), false);
    run_branch("bge", flags().v(), false);
    run_branch("bge", flags().v().c(), false);
    run_branch("bge", flags().n().z(), false);
}

#[test]
fn test_ble() {
    run_branch("ble", flags(), false);
    run_branch("ble", flags().z(), true);
    run_branch("ble", flags().n().v(), false);
    run_branch("ble", flags().n().v().z(), true);
    run_branch("ble", flags().n().z().v().c(), true);
    run_branch("ble", flags().n(), true);
    run_branch("ble", flags().v(), true);
    run_branch("ble", flags().v().c(), true);
    run_branch("ble", flags().n().z(), true);
}

#[test]
fn test_bgt() {
    run_branch("bgt", flags(), true);
    run_branch("bgt", flags().z(), false);
    run_branch("bgt", flags().n().v(), true);
    run_branch("bgt", flags().n().v().z(), false);
    run_branch("bgt", flags().n().z().v().c(), false);
    run_branch("bgt", flags().n(), false);
    run_branch("bgt", flags().v(), false);
    run_branch("bgt", flags().v().c(), false);
    run_branch("bgt", flags().n().z(), false);
}

#[test]
fn test_bhi() {
    run_branch("bhi", flags(), true);
    run_branch("bhi", flags().n().v(), true);
    run_branch("bhi", flags().c(), false);
    run_branch("bhi", flags().z(), false);
    run_branch("bhi", flags().z().c().v().n(), false);
}

#[test]
fn test_blos() {
    run_branch("blos", flags(), false);
    run_branch("blos", flags().n().v(), false);
    run_branch("blos", flags().c(), true);
    run_branch("blos", flags().z(), true);
    run_branch("blos", flags().z().c().v().n(), true);
}

#[test]
fn test_bhis() {
    run_branch("bhis", flags(), true);
    run_branch("bhis", flags().n(), true);
    run_branch("bhis", flags().c(), false);
    run_branch("bhis", flags().n().z().v().c(), false);
}

#[test]
fn test_blo() {
    run_branch("blo", flags(), false);
    run_branch("blo", flags().n(), false);
    run_branch("blo", flags().c(), true);
    run_branch("blo", flags().n().z().v().c(), true);
}


#[test]
fn test_clr() {
    run_single("clr", 0o0, 0, Flags{z:T, n:F, c:F, v:F});
    run_single("clr", 0o4, 0, Flags{z:T, n:F, c:F, v:F});
    run_single("clr", 0o377, 0, Flags{z:T, n:F, c:F, v:F});
    run_single("clr", 0o177777, 0, Flags{z:T, n:F, c:F, v:F});
    run_single("clr", 0o1777, 0, Flags{z:T, n:F, c:F, v:F});
}

#[test]
fn test_inc() {
    run_single("inc", 0o0, 0o1, Flags{z:F, n:F, c:F, v:F});
    run_single("inc", 0o7, 0o10, Flags{z:F, n:F, c:F, v:F});
    run_single("inc", 0o177777, 0o0, Flags{z:T, n:F, c:F, v:F});
    run_single("inc", 0o177677, 0o177700, Flags{z:F, n:T, c:F, v:F});
    run_single("inc", 0o077777, 0o100000, Flags{z:F, n:T, c:F, v:T});
}

#[test]
fn test_dec() {
    run_single("dec", 0o1, 0o0, Flags{z:T, n:F, c:F, v:F});
    run_single("dec", 0o7, 0o6, Flags{z:F, n:F, c:F, v:F});
    run_single("dec", 0o0, 0o177777, Flags{z:F, n:T, c:F, v:F});
    run_single("dec", 0o100000, 0o077777, Flags{z:F, n:F, c:F, v:T});
    run_single("dec", 0o177777, 0o177776, Flags{z:F, n:T, c:F, v:F});
    run_single("dec", 0o177000, 0o176777, Flags{z:F, n:T, c:F, v:F});
}

#[test]
fn test_neg() {
    run_single("neg", 0o0, 0o0, Flags{z:T, n:F, c:F, v:F});
    run_single("neg", 0o1, 0o177777, Flags{z:F, n:T, c:T, v:F});
    run_single("neg", 0o177777, 0o1, Flags{z:F, n:F, c:T, v:F});
    run_single("neg", 0o077777, 0o100001, Flags{z:F, n:T, c:T, v:F});
    run_single("neg", 0o100000, 0o100000, Flags{z:F, n:T, c:T, v:T});
    run_single("neg", 0o6, 0o177772, Flags{z:F, n:T, c:T, v:F});
}

#[test]
fn test_tst() {
    run_single("tst", 0o0, 0o0, Flags{z:T, n:F, c:F, v:F});
    run_single("tst", 0o1, 0o1, Flags{z:F, n:T, c:F, v:F});
    run_single("tst", 0o100, 0o100, Flags{z:F, n:T, c:F, v:F});
    run_single("tst", 0o100000, 0o100000, Flags{z:F, n:T, c:F, v:F});
    run_single("tst", 0o100001, 0o100001, Flags{z:F, n:F, c:F, v:F});
    run_single("tst", 0o107001, 0o107001, Flags{z:F, n:F, c:F, v:F});
}

#[test]
fn test_com() {
    run_single("com", 0o0, 0o177777, Flags{z:F, n:T, c:T, v:F});
    run_single("com", 0o177777, 0o0, Flags{z:T, n:F, c:T, v:F});
    run_single("com", 0o133333, 0o044444, Flags{z:F, n:F, c:T, v:F});
    run_single("com", 0o134343, 0o043434, Flags{z:F, n:F, c:T, v:F});
}

#[test]
fn test_swab() {
    run_single("swab", 0x0, 0x0, flags().z());
    run_single("swab", 0x00ff, 0xff00, flags().z());
    run_single("swab", 0xff00, 0x00ff, flags().n());
    run_single("swab", 0xbeef, 0xefbe, flags().n());
}

#[test]
fn test_asr() {
    run_single("asr", 0o0, 0o0, flags().z());
    run_single("asr", 0o1, 0o0, flags().z().c().v());
    run_single("asr", 0o2, 0o1, flags());
    run_single("asr", 0o50, 0o24, flags());
    run_single("asr", 0o100000, 0o140000, flags().n().v());
    run_single("asr", 0o177777, 0o177777, flags().n().c());
    run_single("asr", 0o077777, 0o037777, flags().c().v());
}

#[test]
fn test_asl() {
    run_single("asl", 0o0, 0o0, flags().z());
    run_single("asl", 0o1, 0o2, flags());
    run_single("asl", 0o50, 0o120, flags());
    run_single("asl", 0o077777, 0o177776, flags().n().v());
    run_single("asl", 0o177777, 0o177776, flags().n().c());
}

#[test]
fn test_clrb() {
    run_single("clrb", 0o0, 0, flags().z());
    run_single("clrb", 0o4, 0, flags().z());
    run_single("clrb", 0o377, 0, flags().z());
    run_single("clrb", 0xffff, 0xff00, flags().z());
    run_single("clrb", 0x3ff, 0x0300, flags().z());
}

#[test]
fn test_incb() {
    run_single("incb", 0o0, 0o1, flags());
    run_single("incb", 0o7, 0o10, flags());
    run_single("incb", 0xffff, 0xff00, flags().z());
    run_single("incb", 0xff6f, 0xff70, flags());
    run_single("incb", 0xff7f, 0xff80, flags().n().v());
}

#[test]
fn test_decb() {
    run_single("decb", 0o1, 0o0, flags().z());
    run_single("decb", 0o7, 0o6, flags());
    run_single("decb", 0x0, 0xff, flags().n());
    run_single("decb", 0xff00, 0xffff, flags().n());
    run_single("decb", 0xff80, 0xff7f, flags().v());
    run_single("decb", 0xffff, 0xfffe, flags().n());
    run_single("decb", 0xfff0, 0xffef, flags().n());
}

#[test]
fn test_negb() {
    run_single("negb", 0x0, 0x0, flags().z());
    run_single("negb", 0x1, 0xff, flags().n().c());
    run_single("negb", 0xffff, 0xff01, flags().c());
    run_single("negb", 0xff7f, 0xff81, flags().n().c());
    run_single("negb", 0xff80, 0xff80, flags().n().c().v());
    run_single("negb", 0x7706, 0x77fa, flags().n().c());
}

#[test]
fn test_tstb() {
    run_single("tstb", 0x0, 0x0, flags().z());
    run_single("tstb", 0x1, 0x1, flags().n());
    run_single("tstb", 0x5, 0x5, flags().n());
    run_single("tstb", 0xff80, 0xff80, flags().n());
    run_single("tstb", 0xfa81, 0xfa81, flags());
    run_single("tstb", 0xff01, 0xff01, flags().n());
}

#[test]
fn test_comb() {
    run_single("comb", 0x0, 0xff, flags().c().n());
    run_single("comb", 0xffff, 0xff00, flags().c().z());
    run_single("comb", 0xff38, 0xffc7, flags().c().n());
}

#[test]
fn test_adc() {
    run_multi("adc", 0o0, 0o0, flags(), flags().z());
    run_multi("adc", 0o0, 0o1, flags().c(), flags());
    run_multi("adc", 0o7, 0o10, flags().c(), flags());
    run_multi("adc", 0o7, 0o7, flags(), flags());
    run_multi("adc", 0o177777, 0o0, flags().c(), flags().z().c());
    run_multi("adc", 0o177777, 0o177777, flags(), flags().n());
    run_multi("adc", 0o077777, 0o100000, flags().c(), flags().n().v());
    run_multi("adc", 0o100000, 0o100001, flags().c(), flags().n());
    run_multi("adc", 0o100000, 0o100000, flags(), flags().n());
}

#[test]
fn test_sbc() {
    run_multi("sbc", 0o0, 0o0, flags(), flags().c().z());
    run_multi("sbc", 0o1, 0o0, flags().c(), flags().z());
    run_multi("sbc", 0o0, 0o177777, flags().c(), flags().c().n());
    run_multi("sbc", 0o5, 0o5, flags(), flags().c());
    run_multi("sbc", 0o5, 0o4, flags().c(), flags().c());
    run_multi("sbc", 0o100000, 0o077777, flags().c(), flags().c());
    run_multi("sbc", 0o100000, 0o100000, flags(), flags().c().v().n());
    run_multi("sbc", 0o100001, 0o100001, flags(), flags().c().n());
    run_multi("sbc", 0o100001, 0o100000, flags().c(), flags().c().v().n());
}

#[test]
fn test_ror() {
    run_multi("ror", 0o0, 0o0, flags(), flags().z());
    run_multi("ror", 0o1, 0o0, flags(), flags().c().v().z());
    run_multi("ror", 0o2, 0o1, flags(), flags());
    run_multi("ror", 0o50, 0o24, flags(), flags());
    run_multi("ror", 0o0, 0o100000, flags().c(), flags().n().v());
    run_multi("ror", 0o1, 0o100000, flags().c(), flags().n().c());
    run_multi("ror", 0o100000, 0o040000, flags(), flags());
    run_multi("ror", 0o100000, 0o140000, flags().c(), flags().n().v());
    run_multi("ror", 0o177777, 0o077777, flags(), flags().c().v());
    run_multi("ror", 0o177777, 0o177777, flags().c(), flags().c().n());
}

#[test]
fn test_rol() {
    run_multi("rol", 0o0, 0o0, flags(), flags().z());
    run_multi("rol", 0o1, 0o2, flags(), flags());
    run_multi("rol", 0o50, 0o120, flags(), flags());
    run_multi("rol", 0o0, 0o1, flags().c(), flags());
    run_multi("rol", 0o100000, 0o0, flags(), flags().z().c().v());
    run_multi("rol", 0o100000, 0o1, flags().c(), flags().c().v());
    run_multi("rol", 0o040000, 0o100000, flags(), flags().n().v());
    run_multi("rol", 0o040000, 0o100001, flags().c(), flags().n().v());
    run_multi("rol", 0o140000, 0o100001, flags().c(), flags().n().c());
    run_multi("rol", 0o177777, 0o177776, flags(), flags().n().c());
    run_multi("rol", 0o177777, 0o177777, flags().c(), flags().c().n());
}

#[test]
fn test_adcb() {
    run_multi("adcb", 0x0, 0x0, flags(), flags().z());
    run_multi("adcb", 0x0, 0x1, flags().c(), flags());
    run_multi("adcb", 0x7, 0x7, flags(), flags());
    run_multi("adcb", 0xff00, 0xff00, flags(), flags().z());
    run_multi("adcb", 0xab07, 0xab08, flags().c(), flags());
    run_multi("adcb", 0xdd07, 0xdd07, flags(), flags());
    run_multi("adcb", 0xddff, 0xdd00, flags().c(), flags().z().c());
    run_multi("adcb", 0xddff, 0xddff, flags(), flags().n());
    run_multi("adcb", 0xdd7f, 0xdd7f, flags(), flags());
    run_multi("adcb", 0xdd7f, 0xdd80, flags().c(), flags().n().v());
    run_multi("adcb", 0xdd80, 0xdd80, flags(), flags().n());
    run_multi("adcb", 0xdd80, 0xdd81, flags().c(), flags().n());
}

#[test]
fn test_sbcb() {
    run_multi("sbcb", 0x0, 0x0, flags(), flags().c().z());
    run_multi("sbcb", 0x1, 0x0, flags().c(), flags().z());
    run_multi("sbcb", 0xaa00, 0xaaff, flags().c(), flags().c().n());
    run_multi("sbcb", 0xaa05, 0xaa05, flags(), flags().c());
    run_multi("sbcb", 0xaa05, 0xaa04, flags().c(), flags().c());
    run_multi("sbcb", 0xaa80, 0xaa7f, flags().c(), flags().c());
    run_multi("sbcb", 0xaa80, 0xaa80, flags(), flags().c().v().n());
    run_multi("sbcb", 0xaa81, 0xaa81, flags(), flags().c().n());
    run_multi("sbcb", 0xaa81, 0xaa80, flags().c(), flags().c().v().n());
}


#[test]
fn test_literal_to_abs() {
    let bin = assemble(
        r#"
            mov #0753, @#020
            halt
        "#,
    );
    let mut emu = Emulator::new();
    emu.load_image(&bin, DATA_START).unwrap();
    emu.run_at(DATA_START).unwrap();
    assert_eq!(emu.get_state().mem_read_word(0o20), 0o753);
    assert_eq!(emu.get_state().reg_read_word(Reg::PC), DATA_START + bin.len() as u16);
}

#[test]
fn test_double_autoinc() {
    let bin = assemble(
        r#"
            mov #arr_a, r0
            mov #arr_b, r1

            mov (r0)+, (r1)+
            mov (r0)+, (r1)+

            mov #arr_b, r1
            mov (r1)+, r2
            mov (r1)+, r3
            halt

        arr_a:
            .word 01 02
        arr_b:
            .word 07 07
        "#,
    );
    let mut emu = Emulator::new();
    emu.load_image(&bin, 0).unwrap();
    emu.run_at(0).unwrap();
    assert_eq!(emu.get_state().reg_read_word(Reg::R2), 0o1);
    assert_eq!(emu.get_state().reg_read_word(Reg::R3), 0o2);
}

#[test]
fn test_index_autoinc() {
    let bin = assemble(
        r#"
            mov #arr_a, r0
            mov #arr_b, r1

            mov 4(r0), (r1)+
            mov 6(r0), (r1)+

            mov #arr_b, r1
            mov (r1)+, r2
            mov (r1)+, r3
            halt

        arr_a:
            .word 00 00 01 02
        arr_b:
            .word 07 07
        "#,
    );
    let mut emu = Emulator::new();
    emu.load_image(&bin, 0).unwrap();
    emu.run_at(0).unwrap();
    assert_eq!(emu.get_state().reg_read_word(Reg::R2), 0o1);
    assert_eq!(emu.get_state().reg_read_word(Reg::R3), 0o2);
}

#[test]
fn hello() {
    let bin = assemble(
        r#"
            mov #0150000, sp
            mov #msg, r1

        msg_loop:
            movb (r1)+, r0
            beq msg_loop_done
            jsr pc, print
            br msg_loop

        msg_loop_done:
            movb #012, r0 ; '\n'
            jsr pc, print

            halt


        ; char to print in r0, others callee save
        print:
            mov r1, -(sp)
            mov r2, -(sp)
            mov r3, -(sp)
            mov #0177564, r2   ; TPS
            mov #0177566, r3   ; TPB

        print_loop:
            movb (r2), r1
            bicb #0177, r1 
            beq print_loop

            movb r0, (r3)

            mov (sp)+, r3
            mov (sp)+, r2
            mov (sp)+, r1

            rts pc  


        msg:
        .asciz "hello, world!"
        "#,
    );

    let teleprinter = Teleprinter::new(PipePrinter::new());
    let mut emu = Emulator::new();
    emu.set_mmio_handler_for(Device::Teleprinter(teleprinter), &[Teleprinter::TPS, Teleprinter::TPB]);
    emu.load_image(&bin, 0).unwrap();
    emu.run().unwrap();

    let buf = emu.take_output(1);
    let out = String::from_utf8_lossy(&buf);
    assert_eq!(out, "hello, world!\n");
}
