//! A small POSIX-like shell language: lexer, recursive-descent parser and the
//! pure decision logic of a tree-walking evaluator.
//!
//! The library covers everything about the shell that can be stated and
//! checked as mathematics: turning source text into tokens, tokens into an
//! abstract syntax tree, and the rules the evaluator follows (variable and
//! parameter expansion, command resolution, pipeline wiring, short-circuit
//! evaluation, capture trimming, job bookkeeping).  Spawning processes,
//! touching files and reading the environment are left to the embedding
//! program, which feeds the results back into these functions as plain values.

pub mod change_dir;
pub mod digits;
pub mod expr;
pub mod parser;
pub mod runtime;
pub mod tokenizer;

use vstd::prelude::*;

verus! {

/// Exit status reported for a child that was killed by a signal and so has no
/// exit code of its own.
pub const SIGNAL_STATUS: i32 = 130;

/// Translates the exit code of a waited-for child into the shell's status:
/// the code itself when there is one, a fixed sentinel when the child was
/// killed by a signal.
pub fn status_from_code(code: Option<i32>) -> (r: i32)
    ensures
        code is Some ==> r == code.unwrap(),
        code is None ==> r == SIGNAL_STATUS,
{
    match code {
        Some(c) => c,
        None => SIGNAL_STATUS,
    }
}

} // verus!
