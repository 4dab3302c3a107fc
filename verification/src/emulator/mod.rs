//! The PDP-11 emulator: processor state, instruction execution and devices.
pub mod emulator_state;
pub mod alu;
pub mod io;
pub mod emulator;
