pub mod manager;
pub mod snapshot;
