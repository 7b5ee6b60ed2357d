//! The command-dispatch engine of an interactive shell, with its behaviour
//! stated in contracts and proved.
//!
//! A shell reads a line, takes its first word for a command and the others
//! for arguments, runs the command itself where it is built in and as a
//! program where it is found along the search path, and remembers the
//! status that the command left.
//!
//! - [`text`]: trimming a line, splitting it into words, joining words.
//! - [`number`]: reading the number that `exit` is given.
//! - [`paths`]: joining paths, splitting a search path, finding a command
//!   along it.
//! - [`command`]: a line as a command with its arguments.
//! - [`registry`]: the mapping from names to built-in operations.
//! - [`builtins`]: the context of a session and the built-in commands
//!   `exit`, `echo`, `pwd`, `cd` and `type`.
//! - [`shell`]: the loop of the shell as a state machine.
//!
//! The library does no input or output. It is told what was read and what
//! the file system holds, and says what is to be written and what is to be
//! run; see [`shell`] for the program that a host wraps around it.

pub mod builtins;
pub mod command;
pub mod number;
pub mod paths;
pub mod registry;
pub mod shell;
pub mod text;
