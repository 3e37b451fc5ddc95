//! The logic of a small interactive command interpreter: how a line becomes a
//! command, which commands the interpreter runs itself, and which system calls
//! surround the run of an external program so that the terminal always has
//! exactly one foreground process group.

pub mod action;
pub mod builtin;
pub mod job;
pub mod number;
pub mod parser;
pub mod session;
pub mod shell;
pub mod text;
