//! Argument expansion as the shell applies it to every command.
pub mod expand;
