//! Interpretive core of a line-oriented command shell.
//!
//! One line of input is parsed into a structured command, resolved to a
//! built-in or an external program, surrounded by the requested descriptor
//! redirections, run, and the shell's own descriptors are restored.

pub mod engine;
pub mod laws;
pub mod parser;
pub mod redirect;
pub mod resolver;
pub mod sys;
pub mod text;
