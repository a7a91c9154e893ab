//! A register-based bytecode virtual machine for a small dynamically typed,
//! closure-capable scripting language.
//!
//! The host builds a [`vm::KutVm`] from a literal pool and a template pool,
//! captures an entry template into a [`value::KutClosure`], starts it as a
//! [`value::KutFunction`] activation, and runs it against a [`value::CellPool`]
//! holding the shared capture cells.

pub mod value;
pub mod vm;
