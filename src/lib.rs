//! A small interactive command interpreter: the tokenizer that turns a line
//! into piped stages with redirections, the builtin commands, and the
//! decisions that drive a pipeline of builtins and external programs.
//!
//! Choices made where shells differ:
//! - every word after a redirection operator, up to the next pipe or
//!   operator, is a target of that stream, and each target gets the output;
//! - redirection applies to a line of one stage only;
//! - a builtin inside a pipe chain does not read what the stage before it
//!   wrote; its own output is written into the next program's input.

use vstd::prelude::*;

pub mod builtins;
pub mod executor;
pub mod parser;
pub mod text;

verus! {

} // verus!
