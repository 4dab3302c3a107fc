//! Assembling to the bare bytes of a program, without an `a.out` header.
use vstd::prelude::*;
use vstd::string::StringSliceAdditionalSpecFns;
use crate::assembler::assembler::{assemble_with, assembles, assembles_to, AsmError, Program};

verus! {

/// Assembles source text into the bytes of a program to be loaded at
/// address 0. A relative operand is stored as the offset from the address
/// of its extra word, which is where the emulator counts it from. The
/// source must assemble: on a program with an error the call panics.
pub fn assemble(prog: &str) -> (r: Vec<u8>)
    requires
        assembles(prog.spec_bytes(), false),
    ensures
        exists|p: Program|
            #[trigger] assembles_to(prog.spec_bytes(), false, Ok::<Program, AsmError>(p)) && r@
                == p.text@,
{
    match assemble_with(prog, false) {
        Ok(p) => p.text,
        Err(_) => vstd::pervasive::unreached(),
    }
}

} // verus!
