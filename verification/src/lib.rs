//! The line-to-execution core of a small interactive shell.
//!
//! The crate turns one input line into a decision about what the shell does
//! next. It never touches the terminal, the environment or the file system:
//! the host program reads lines, probes files and spawns processes, and hands
//! what it found to the functions here as plain values.
//!
//! * [`tokenizer`] splits a line into words under the quoting grammar.
//! * [`builtin`] is the closed set of commands handled in-process.
//! * [`resolver`] maps a command word to the executable file to run.
//! * [`dispatch`] routes a line to a builtin or to an external program and
//!   words every line the shell prints.
//! * [`platform`] names the conventions that differ between hosts.
//! * [`text`] holds the string primitives the other modules share.
//!
//! A host calls [`dispatch::dispatch`] on each line it reads and carries out
//! the [`dispatch::Action`] it gets back. To resolve a command word it starts
//! a [`resolver::PathSearch`], probes the path that
//! [`resolver::PathSearch::candidate`] names, and reports the outcome with
//! [`resolver::PathSearch::answer`] until a path is found or none is left.

pub mod text;
pub mod tokenizer;
pub mod builtin;
pub mod platform;
pub mod resolver;
pub mod dispatch;
