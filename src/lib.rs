//! An interpreter for a small Forth-like stack language.
//!
//! `ast` holds the parsed form of a program, `semantics` states what running
//! it means over mathematical values, `vm` is the evaluator proved to follow
//! that statement, and `laws` proves properties of the language from it.
//!
//! Decisions the language leaves open, fixed here:
//! - `+`, `-` and `*` wrap on overflow; `/` truncates toward zero and `mod`
//!   takes the dividend's sign, with `i64::MIN / -1` giving `i64::MIN` and
//!   `i64::MIN mod -1` giving 0.
//! - A word that fails leaves the stack as it was: operands are checked
//!   before any is popped.
//! - Nested loops share one index: after an inner loop ends there is no
//!   index until the outer loop starts its next round.
//! - User-defined words may call each other at most `vm::MAX_CALL_DEPTH`
//!   deep; a deeper call fails with `Failure::CallDepthExceeded`.

pub mod ast;
pub mod semantics;
pub mod vm;
pub mod laws;

