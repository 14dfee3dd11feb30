//! A single `assert`-style diagnostics generator: the condition expression of
//! an assertion is classified by shape and rewritten into setup code, a
//! positive predicate and a failure-message template, so that a failing
//! assertion can report the values of its sub-expressions while evaluating
//! each of them exactly once.

pub mod ast;
pub mod classify;
pub mod laws;
pub mod output;
pub mod state;
pub mod text;
pub mod utils;
