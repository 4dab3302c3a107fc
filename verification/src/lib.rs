//! A PDP-11 toolchain: instruction encoding and decoding, an assembler, an
//! `a.out` object format, a disassembler with its listing text, and an
//! emulator with memory-mapped devices.
pub mod isa;
pub mod constants;
pub mod mem;
pub mod decoder;
pub mod emulator;
pub mod assembler;
pub mod aout;
pub mod flags;
pub mod disassembler;
pub mod listing;
