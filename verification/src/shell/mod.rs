pub mod builtin;
pub mod builtins;
pub mod completion;
pub mod repl;
pub mod state;
