//! A virtual machine for a fixed 16-bit instruction set, together with a
//! debugger layered over the same fetch-execute loop.
//!
//! The crate is organised around a small mathematical model of the machine
//! (`machine::VmModel`): every public operation states in its contract how it
//! maps one model to the next, and the executable code is verified against
//! those statements.

pub mod debugger;
pub mod errors;
pub mod machine;
pub mod instructions;
pub mod operand;
pub mod orb_maze;
pub mod side_effects;
pub mod teleporter;
pub mod text;
