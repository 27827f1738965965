pub mod executor;
pub mod expand;
pub mod pipeline;
pub mod process;
pub mod single;
