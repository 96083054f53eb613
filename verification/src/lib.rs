//! A debugging console for an embedded Lua runtime: the decisions of a
//! read-eval-print loop, stated and proved.
//!
//! The console reads a line, decides whether it is an expression or a
//! statement, has it evaluated, and shows the result beneath a tail of the
//! application's log. Reading keys, drawing, and awaiting the evaluation are
//! the caller's work; everything that is decided is decided here.

pub mod change;
pub mod classify;
pub mod error;
pub mod evaluate;
pub mod level;
pub mod log_tail;
pub mod lua;
pub mod repl;
pub mod text;
pub mod timestamp;
