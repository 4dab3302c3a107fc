//! Condition codes as four booleans, for setting up and checking the
//! processor status word.
use vstd::prelude::*;
use crate::emulator::emulator_state::{b2u, Status};

verus! {

/// The four condition codes: carry, overflow, zero, negative.
#[derive(Debug, Clone, Copy, PartialEq, Eq, Structural)]
pub struct Flags {
    pub c: bool,
    pub v: bool,
    pub z: bool,
    pub n: bool,
}

impl Default for Flags {
    /// All codes clear.
    fn default() -> (r: Flags)
        ensures
            r == (Flags { c: false, v: false, z: false, n: false }),
    {
        Flags { c: false, v: false, z: false, n: false }
    }
}

impl Flags {
    /// The codes as the low four bits of a status word.
    pub fn to_bits(self) -> (r: u16)
        ensures
            r == b2u(self.c) + 2 * b2u(self.v) + 4 * b2u(self.z) + 8 * b2u(self.n),
            r < 16,
    {
        let bit = |b: bool| -> (r: u16)
            ensures
                r == b2u(b),
            {
                if b {
                    1
                } else {
                    0
                }
            };
        bit(self.c) * Status::C + bit(self.v) * Status::V + bit(self.z) * Status::Z + bit(self.n)
            * Status::N
    }

    /// With carry set.
    pub fn c(self) -> (r: Flags)
        ensures
            r == (Flags { c: true, ..self }),
    {
        Flags { c: true, ..self }
    }

    /// With overflow set.
    pub fn v(self) -> (r: Flags)
        ensures
            r == (Flags { v: true, ..self }),
    {
        Flags { v: true, ..self }
    }

    /// With zero set.
    pub fn z(self) -> (r: Flags)
        ensures
            r == (Flags { z: true, ..self }),
    {
        Flags { z: true, ..self }
    }

    /// With negative set.
    pub fn n(self) -> (r: Flags)
        ensures
            r == (Flags { n: true, ..self }),
    {
        Flags { n: true, ..self }
    }
}

/// All codes clear.
pub fn flags() -> (r: Flags)
    ensures
        r == (Flags { c: false, v: false, z: false, n: false }),
{
    Flags::default()
}

} // verus!
