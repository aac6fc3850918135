//! The virtual machine.

pub mod instruction;
