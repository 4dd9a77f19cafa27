//! A table-driven matcher for a small pattern language.
//!
//! A pattern is a sequence of atoms: a literal character, `.` for any
//! printable character, `$` for the end of the input, each optionally followed
//! by `*` for zero or more repetitions. A pattern is compiled into one
//! transition column per atom, and an input is matched by walking the columns.

pub mod machine;
pub mod pattern;
pub mod compiler;
pub mod matcher;
pub mod dump;
pub mod semantics;
pub mod laws;

pub use machine::{FsmAction, FsmColumn, Regex, RegexError};
