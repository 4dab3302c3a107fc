# pdp11

A PDP-11 toolchain whose logic is verified with Verus: instruction encoding and
decoding, a two-pass assembler, the `a.out` format, a disassembler with its
listing text, and an emulator with memory-mapped devices (status word, line
clock, teleprinter, teletype).

- `src/` the verified library; the contracts are stated over the spec
  functions next to each function (`spec_decode`, `s_assemble`, `spec_step`,
  `dis_from`, `ins_text_at`, ...).
- `tests/` tests on concrete programs.
- `app/` the command-line front end: `as`, `emu`, `disas` and `run`, with
  file and terminal I/O.

Functions that stop the program on bad input (`assemble`, `assemble_raw`,
`flat::assemble`, `parse_int`, `Aout::read_from`, `Aout::write_to`, the
emulator's memory and register accessors, `set_mmio_handler`) say in their
`requires` which inputs they accept; where a caller needs the error, a
`try_` or `_with` companion returns it instead (`try_assemble`, `assemble_with`,
`Aout::try_read_from`, `Emulator::try_mem_read_word`, ...). Running a program
(`step`, `run_ins`, `run`) reports a fault of the emulated program as an
`EmuError`.
