//! Lowering of a module to machine code.

pub mod frame;
pub mod lowering;
pub mod schedule;
pub mod x86_64;
