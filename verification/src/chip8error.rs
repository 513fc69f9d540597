//! The classified failures of one interpreter cycle.

use vstd::prelude::*;

verus! {

/// Why a cycle, or a request made of the machine, was refused. The engine
/// reports the first failure of a cycle and leaves the decision of what to
/// do next to its caller.
#[derive(Debug)]
pub enum Chip8Error {
    /// The top nibble of an instruction names no instruction class. Each of
    /// its sixteen values names one, so no cycle reports this: a word of a
    /// known class that names no operation is reported by the kind of its
    /// class.
    InvalidFirstByte(u8),
    /// The low byte of `0x0XNN`, given as its two nibbles, is neither `E0`
    /// nor `EE`.
    Invalid0x0NNN(u8, u8),
    /// A key-check instruction named register X, and the value in that
    /// register is no key of the keypad.
    InvalidRegisterX(u8),
    /// The low nibble N of `0x8XYN` names no arithmetic or logic operation.
    Invalid0x8XYN(u8),
    /// The low byte of `0xEXNN`, given as its two nibbles, names no key check.
    Invalid0xENNN(u8, u8),
    /// The low byte of `0xFXNN`, given as its two nibbles, names no operation.
    Invalid0xFNNN(u8, u8),
    /// The register that should receive the awaited key does not exist.
    InvalidWaitRegister(u8),
    /// The system random source failed.
    IssueGeneratingRandomNum(getrandom::Error),
    /// An instruction fetch, a sprite read or a block transfer starting at
    /// the given address would leave the 4096-byte address space.
    InvalidMemoryAccess(u16),
    /// A call found no free slot above the given stack pointer, or a return
    /// found no frame at it.
    InvalidStackPointer(u8),
}

} // verus!
