//! The command resolution and completion engine of an interactive shell.
//!
//! Everything that touches the terminal, the process environment or the file
//! system is left to the caller, which hands this library plain values.
pub mod text;
pub mod lexer;
pub mod builtin;
pub mod resolver;
pub mod order;
pub mod completion;
pub mod dispatch;
pub mod redirect;
