use vstd::prelude::*;

verus! {

/// Size of a machine word, in bytes.
pub const WORD_SIZE: u16 = 2;

/// Maximum number of words in one instruction.
pub const MAX_INS_WORDS: u16 = 3;

/// First address of the interrupt vectors.
pub const INTERUPT_START: u16 = 0o0;

/// End (exclusive) of the interrupt vectors.
pub const INTERUPT_END: u16 = 0o400;

/// First address of ordinary data.
pub const DATA_START: u16 = 0o400;

/// End (exclusive) of ordinary data.
pub const DATA_END: u16 = 0o160000;

/// First address of the memory-mapped I/O page.
pub const MMIO_START: u16 = 0o160000;

/// Highest byte address.
pub const MEM_HIGH: u16 = 0o177777;

/// End (exclusive) of the address space; note the wider type.
pub const MEM_END: u32 = 0o1000000;

} // verus!
