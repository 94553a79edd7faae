use vstd::prelude::*;

verus! {

/// The ways in which emulation stops. None of them is recoverable: the
/// machine is left as it was at the moment the fault was found.
#[derive(Debug, Clone, Copy, PartialEq, Eq, Structural)]
pub enum Error {
    /// A memory cell outside `0..4096` was addressed.
    OutOfBoundsAccess { address: u32 },
    /// The word fetched at the program counter encodes no instruction.
    UnknownInstruction { word: u16 },
    /// A return was executed while the call stack was empty.
    StackUnderflow,
}

} // verus!
