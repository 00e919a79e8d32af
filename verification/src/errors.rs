//! The error taxonomy of the machine: decode errors and execution errors are
//! fatal for a run; they signal a corrupted or malicious program image, not an
//! operator mistake.

use vstd::prelude::*;

verus! {

/// Why a memory window could not be decoded into an instruction.
#[derive(Debug, Clone, Copy, PartialEq, Eq, Structural)]
pub enum DecodeError {
    /// The opcode address lies beyond the end of memory.
    InvalidAddress,
    /// The opcode is known but one of its operand words lies beyond the end
    /// of memory.
    TruncatedOperands,
    /// The opcode word does not name any instruction.
    UnknownOpcode,
    /// An operand word is 32776 or more: neither a literal nor a register.
    InvalidOperand,
}

/// Why executing a decoded instruction failed.
#[derive(Debug, Clone, Copy, PartialEq, Eq, Structural)]
pub enum ExecError {
    /// The destination operand of a write is a literal, not a register.
    InvalidWriteTarget,
    /// A `pop` found the stack empty (for `ret` an empty stack means halt,
    /// not an error).
    EmptyStack,
    /// The divisor of a `mod` instruction is zero.
    DivisionByZero,
    /// An `out` operand does not resolve to a valid character code point.
    NotACharacter,
    /// A memory access through `rmem` or `wmem` lies beyond the address
    /// space.
    AddressOutOfRange,
    /// The side-effect sink could not produce an input character.
    InputUnavailable,
}

/// Any fatal error of a run: a decode error or an execution error.
#[derive(Debug, Clone, Copy, PartialEq, Eq, Structural)]
pub enum VmError {
    Decode(DecodeError),
    Exec(ExecError),
}

} // verus!
