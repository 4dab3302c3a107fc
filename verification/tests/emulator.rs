use pdp11::constants::DATA_START;
use pdp11::emulator::emulator::{Emulator, ExecRet};
use pdp11::emulator::emulator_state::EmuError;
use pdp11::isa::Reg;
use pdp11::mem::as_byte_slice;

#[test]
fn emulator_halt() {
    let bin = &[
        0, // halt
    ];
    let bin = as_byte_slice(bin);

    let mut emu = Emulator::new();
    emu.load_image(&bin, DATA_START).unwrap();
    emu.run_at(DATA_START).unwrap();
    assert_eq!(emu.reg_read_word(Reg::PC), DATA_START + 2);
}

#[test]
fn emulator_mov_reg_reg() {
    let bin = &[
        0o10001, // mov r0, r1
        0,       // halt
    ];
    let bin = as_byte_slice(bin);

    let val = 0xabcd;
    let mut emu = Emulator::new();
    emu.load_image(&bin, DATA_START).unwrap();
    emu.reg_write_word(Reg::R0, val);
    assert_eq!(emu.reg_read_word(Reg::R1), 0);
    emu.run_at(DATA_START).unwrap();
    assert_eq!(emu.reg_read_word(Reg::R1), val);
}

#[test]
fn emulator_mov_imm_reg() {
    let val = 0xabcd;
    let bin = &[
        0o12700, val, // mov #0xabcd, r0
        0,            // halt
    ];
    let bin = as_byte_slice(bin);

    let mut emu = Emulator::new();
    emu.load_image(&bin, DATA_START).unwrap();
    assert_eq!(emu.reg_read_word(Reg::R0), 0);
    emu.run_at(DATA_START).unwrap();
    assert_eq!(emu.reg_read_word(Reg::R0), val);
}

#[test]
fn emulator_add() {
    let bin = &[
        0o5000, // mov #0, r0
        0x65c0, 1,      // add #1, r0
        0x0000, // halt
    ];
    let bin = as_byte_slice(bin);

    let mut emu = Emulator::new();
    emu.load_image(&bin, DATA_START).unwrap();
    assert_eq!(emu.reg_read_word(Reg::R0), 0);
    emu.run_at(DATA_START).unwrap();
    assert_eq!(emu.reg_read_word(Reg::R0), 1);
}

#[test]
fn emulator_autoinc() {
    let arr = DATA_START + 18;
    let bin = &[
        0o12700, arr, // mov  #arr, r0
        0o62720, 0o1, // add  #1, (r0)+
        0o62720, 0o1, // add  #1, (r0)+
        0o62720, 0o1, // add  #1, (r0)+
        0o0,          // halt
        // arr:
        0o1, 0o2, 0o3, // .word 1 2 3
    ];
    let bin = as_byte_slice(bin);

    let mut emu = Emulator::new();
    emu.load_image(&bin, DATA_START).unwrap();
    assert_eq!(emu.mem_read_word(arr), 1);
    assert_eq!(emu.mem_read_word(arr + 2), 2);
    assert_eq!(emu.mem_read_word(arr + 4), 3);
    emu.run_at(DATA_START).unwrap();
    assert_eq!(emu.mem_read_word(arr), 2);
    assert_eq!(emu.mem_read_word(arr + 2), 3);
    assert_eq!(emu.mem_read_word(arr + 4), 4);
}

#[test]
fn emulator_looop() {
    let bin = &[
        0o12700, 0, // mov #0, r0
        0o12701, 10, // mov #10, r1
        0o62700, 1, // add #1, r0
        0o162701, 1, // sub #1, r1
        0o1373, // bne -10
        0,      // halt
    ];
    let bin = as_byte_slice(bin);

    let mut emu = Emulator::new();
    emu.load_image(&bin, DATA_START).unwrap();
    assert_eq!(emu.reg_read_word(Reg::R0), 0);
    emu.run_at(DATA_START).unwrap();
    assert_eq!(emu.reg_read_word(Reg::R0), 10);
}

#[test]
fn emulator_call() {
    let bin: &[u16] = &[
        0o12701, 0o0, // mov #0, r1
        0o12702, 0o0, // mov #0, r2
        0o407,        // br start
        0o12702, 0o2, // mov #2, r2 ; shouldn't be executed
        // fun:
        0o12701, 0o1, // mov #1, r1
        0o207,        // rts pc
        0o12702, 0o2, // mov #2, r2 ; shouldn't be executed
        // start:
        0o4737, DATA_START + 0o16, // jsr pc, fun
        0o0,                       // halt
    ];
    let bin = as_byte_slice(bin);

    let mut emu = Emulator::new();
    emu.load_image(&bin, DATA_START).unwrap();
    emu.reg_write_word(Reg::SP, 2 * DATA_START);
    emu.run_at(DATA_START).unwrap();
    assert_eq!(emu.reg_read_word(Reg::R1), 1);
    assert_eq!(emu.reg_read_word(Reg::R2), 0);
}

#[test]
fn load_image_past_the_end() {
    let mut emu = Emulator::new();
    let bin = vec![0u8; 4];
    assert_eq!(emu.load_image(&bin, 0xfffe), Err(EmuError::AddressOverflow));
}

#[test]
fn stack_below_the_vectors_is_refused() {
    let mut emu = Emulator::new();
    assert_eq!(emu.try_reg_write_word(Reg::SP, 0o100), Err(EmuError::StackOverflow));
    assert_eq!(emu.reg_read_word(Reg::SP), 0);
}

#[test]
fn pushed_word_is_popped_back() {
    // jsr pc, sub ; halt ; sub: rts pc  -- the return address goes round the stack;
    // the offset counts from the address of the index word
    let bin = as_byte_slice(&[0o4767, 0o4, 0o0, 0o207]);
    let mut emu = Emulator::new();
    emu.load_image(&bin, DATA_START).unwrap();
    emu.reg_write_word(Reg::SP, 0o1000);
    emu.run_at(DATA_START).unwrap();
    assert_eq!(emu.reg_read_word(Reg::SP), 0o1000);
    assert_eq!(emu.reg_read_word(Reg::PC), DATA_START + 6);
}

#[test]
fn trap_and_rti_return_to_the_caller() {
    let bin = pdp11::assembler::flat::assemble(
        r#"
            . = 030
            .word handler
            .word 0
            . = 0400
        start:
            mov #01000, sp
            emt 5
            mov #7, r0
            halt
        handler:
            mov #3, r1
            rti
        "#,
    );
    let mut emu = Emulator::new();
    emu.load_image(&bin, 0).unwrap();
    emu.run_at(0o400).unwrap();
    assert_eq!(emu.reg_read_word(Reg::R1), 3);
    assert_eq!(emu.reg_read_word(Reg::R0), 7);
    assert_eq!(emu.reg_read_word(Reg::SP), 0o1000);
}

#[test]
fn written_word_reads_back() {
    let mut emu = Emulator::new();
    emu.mem_write_word(0o1000, 0o123456);
    assert_eq!(emu.mem_read_word(0o1000), 0o123456);
    assert_eq!(emu.mem_read_byte(0o1000), (0o123456u16 & 0xff) as u8);
    assert_eq!(emu.try_mem_write_word(0o1001, 1), Err(EmuError::Misaligned(0o1001)));
}

#[test]
fn extended_instructions_are_invalid_to_the_emulator() {
    let bin = as_byte_slice(&[0o070001, 0]);
    let mut emu = Emulator::new();
    emu.load_image(&bin, DATA_START).unwrap();
    assert_eq!(emu.run_at(DATA_START), Err(EmuError::InvalidInstruction(0o070001)));
}

#[test]
fn setting_codes_replaces_the_four() {
    let mut emu = Emulator::new();
    emu.get_state_mut().get_status_mut().set_flags(0b1100);
    emu.get_state_mut().get_status_mut().set_flags(0b0001);
    assert_eq!(emu.get_state().get_status().get_flags(), 0b0001);
    // sen, then sec: the second leaves only the carry
    let bin = as_byte_slice(&[0o000270, 0o000261, 0]);
    emu.load_image(&bin, DATA_START).unwrap();
    emu.run_at(DATA_START).unwrap();
    assert_eq!(emu.get_state().get_status().get_flags(), 0b0001);
}

#[test]
fn pc_relative_operand_counts_from_the_index_word() {
    // mov 4(pc), r0 with the index word at 2: the operand is at 2 + 4
    let bin = as_byte_slice(&[0o016700, 0o4, 0o000000, 0o111, 0o222]);
    let mut emu = Emulator::new();
    emu.load_image(&bin, 0).unwrap();
    emu.run_at(0).unwrap();
    assert_eq!(emu.reg_read_word(Reg::R0), 0o111);
}

#[test]
fn single_operand_on_a_register_touches_only_that_register() {
    let bin = as_byte_slice(&[
        0o005201, // inc r1
        0,        // halt
        0o1234,   // data after the program
    ]);
    let mut emu = Emulator::new();
    emu.load_image(&bin, DATA_START).unwrap();
    emu.reg_write_word(Reg::R0, 5);
    emu.reg_write_word(Reg::R1, 0o177777);
    emu.reg_write_word(Reg::R2, 7);
    emu.run_at(DATA_START).unwrap();
    assert_eq!(emu.reg_read_word(Reg::R0), 5);
    assert_eq!(emu.reg_read_word(Reg::R1), 0);
    assert_eq!(emu.reg_read_word(Reg::R2), 7);
    assert_eq!(emu.get_state().get_status().to_raw() & !0xf, 0);
    assert_eq!(emu.get_state().get_status().get_zero(), true);
    assert_eq!(emu.get_state().mem_read_word(DATA_START + 4), 0o1234);
}

#[test]
fn wait_holds_until_an_interrupt() {
    let bin = as_byte_slice(&[0o000001, 0]); // wait ; halt
    let mut emu = Emulator::new();
    emu.load_image(&bin, DATA_START).unwrap();
    emu.reg_write_word(Reg::PC, DATA_START);
    for _ in 0..5 {
        assert_eq!(emu.run_ins(), Ok(ExecRet::Wait));
        assert_eq!(emu.reg_read_word(Reg::PC), DATA_START + 2);
    }
}
