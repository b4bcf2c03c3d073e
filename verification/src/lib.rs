//! An SSA-style intermediate representation with a type-layout engine and an
//! x86-64 lowering.
//!
//! A [`Builder`] fills a [`Module`] with functions, blocks and instructions
//! whose types live in a store of [`Types`]. A
//! [`Backend`](backend::x86_64::Backend) lowers the module to the lines of
//! an assembly program, and a [`Printer`](printing::Printer) writes it down
//! for reading.

pub mod backend;
pub mod builder;
pub mod module;
pub mod opt;
pub mod printing;
pub mod target;
pub mod types;
pub mod util;
pub mod x64;

pub use builder::Builder;
pub use module::Module;
pub use types::{IntSize, Type, Types};
