pub mod ai;
pub mod risk;
pub mod state;
pub mod transaction;
