pub mod tracker;
