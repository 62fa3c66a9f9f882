//! Command-line parsing for the interactive simulation environment, and the
//! decisions of the command executor that need no output.

pub mod commands;
pub mod laws;
pub mod parser;
pub mod real_text;
pub mod repl;
