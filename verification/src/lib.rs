//! A small stack machine: its instructions, the engine that executes them,
//! and the compiler from source text to instructions.
//!
//! `machine` and `grammar` say what the engine and the compiler compute, as
//! functions on sequences; `vm` and `lexer` compute it; `laws` holds facts
//! that follow.

pub mod op;
pub mod text;
pub mod machine;
pub mod grammar;
pub mod vm;
pub mod lexer;
pub mod laws;

pub use crate::lexer::{CompileError, Lexer};
pub use crate::op::{Fault, FaultKind, Op, Step};
pub use crate::vm::VM;
