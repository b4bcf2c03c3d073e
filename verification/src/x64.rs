//! The machine: registers, operands and the lines of assembly code.

pub mod args;
pub mod label;
pub mod register;
pub mod size;
pub mod writer;
