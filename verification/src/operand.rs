//! The operand model: every operand word of an instruction is either a
//! literal in 0..=32767 or a reference to one of the eight registers
//! (raw words 32768..=32775). Raw words of 32776 or more are invalid.

use vstd::prelude::*;

use crate::errors::{DecodeError, ExecError};
use crate::machine::{VmModel, VM};

verus! {

/// A decoded instruction argument: an immediate literal or a register
/// reference.
#[derive(Debug, Clone, Copy, PartialEq, Eq, Structural)]
pub enum Operand {
    Literal(u16),
    Reg(usize),
}

impl Operand {
    /// A well-formed operand only ever arises from a raw word at most 32775:
    /// literals are 15-bit values and register indices are at most 7.
    pub open spec fn wf(self) -> bool {
        match self {
            Operand::Literal(v) => v <= 32767,
            Operand::Reg(r) => r <= 7,
        }
    }

    /// How a raw 16-bit word decodes into an operand.
    pub open spec fn from_spec(raw: u16) -> Result<Operand, DecodeError> {
        if raw <= 32767 {
            Ok(Operand::Literal(raw))
        } else if raw <= 32775 {
            Ok(Operand::Reg((raw - 32768) as usize))
        } else {
            Err(DecodeError::InvalidOperand)
        }
    }

    /// Decode a raw word: 0..=32767 is a literal, 32768..=32775 is a
    /// register reference, anything larger fails.
    pub fn from(raw: u16) -> (r: Result<Operand, DecodeError>)
        ensures
            r == Self::from_spec(raw),
            r matches Ok(op) ==> op.wf(),
    {
        if raw <= 32767 {
            Ok(Operand::Literal(raw))
        } else if raw <= 32775 {
            Ok(Operand::Reg((raw - 32768) as usize))
        } else {
            Err(DecodeError::InvalidOperand)
        }
    }

    /// The value an operand resolves to in a given machine state.
    pub open spec fn value_spec(self, m: VmModel) -> u16 {
        match self {
            Operand::Literal(v) => v,
            Operand::Reg(r) => m.registers[r as int],
        }
    }

    /// Resolve the operand: a literal yields itself, a register reference
    /// yields the current register contents.
    pub fn value(self, vm: &VM) -> (r: u16)
        requires
            self.wf(),
            vm.wf(),
        ensures
            r == self.value_spec(vm@),
    {
        match self {
            Operand::Literal(v) => v,
            Operand::Reg(r) => vm.registers[r],
        }
    }

    /// Write `value` through the operand: only a register reference is a
    /// legal write target; writing a literal signals a malformed program.
    pub fn write(self, vm: &mut VM, value: u16) -> (r: Result<(), ExecError>)
        requires
            self.wf(),
            old(vm).wf(),
        ensures
            final(vm).wf(),
            match self {
                Operand::Reg(rg) => r == Ok::<(), ExecError>(())
                    && final(vm)@ == old(vm)@.with_reg(rg as int, value),
                Operand::Literal(_) => r == Err::<(), ExecError>(ExecError::InvalidWriteTarget)
                    && final(vm)@ == old(vm)@,
            },
    {
        match self {
            Operand::Reg(r) => {
                vm.registers.set(r, value);
                Ok(())
            },
            Operand::Literal(_) => Err(ExecError::InvalidWriteTarget),
        }
    }
}

} // verus!
