pub mod client;
pub mod listener;
