//! A virtual machine for a minimal tape language: eight opcodes over an
//! unbounded tape of fixed-width cells.
//!
//! A [`Program`] is built from source text, one [`Instruction`] per
//! character. A [`Machine`] owns the program, the tape, the two jump tables
//! that resolve loop brackets, and a byte source and a byte sink. It is driven
//! one instruction at a time by [`Machine::step`], or to the end by
//! [`Machine::run`].
//!
//! Every function is verified against a contract. The contracts are stated
//! over the mathematical model in [`model`], which takes in the source and
//! the sink through what each says of itself in [`io`]; what holds of whole
//! runs is proved in [`runs`].

pub mod brackets;
pub mod cell;
pub mod error;
pub mod instruction;
pub mod io;
pub mod model;
pub mod program;
pub mod runs;
pub mod tape;
pub mod vm;

pub use brackets::JumpTable;
pub use cell::Cell;
pub use error::Error;
pub use instruction::Instruction;
pub use io::{ByteSink, ByteSource};
pub use program::Program;
pub use tape::Tape;
pub use vm::Machine;
