use vstd::prelude::*;

verus! {

/// The fatal conditions of the machine: a malformed program or a corrupted
/// driving sequence. Execution halts with the failing opcode or address; the
/// machine is left exactly as it was before the failing operation.
#[derive(Clone, Copy, Debug, PartialEq, Eq, Structural)]
pub enum Chip8Error {
    /// The program counter points past the end of memory, so no two-byte
    /// instruction can be fetched. Carries the program counter.
    PcOutOfRange(u16),
    /// A memory operation reaches past the end of memory. Carries the value of
    /// the index register the operation was based on.
    AddressOutOfRange(u16),
    /// A subroutine call was executed with sixteen calls already nested.
    /// Carries the call's target address.
    StackOverflow(u16),
    /// A return was executed with no call outstanding. Carries the program
    /// counter following the return instruction.
    StackUnderflow(u16),
    /// The opcode word matches no instruction. Carries the opcode.
    UndefinedOpcode(u16),
    /// A key-test instruction named a key the input surface does not have.
    /// Carries the register value used as the key index.
    KeyOutOfRange(u8),
    /// A program longer than the memory past the load address can hold.
    /// Carries the program's length in bytes.
    ProgramTooLarge(usize),
}

} // verus!
