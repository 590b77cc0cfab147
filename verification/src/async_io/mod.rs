pub mod client;
pub mod event_handler;
pub mod event_loop;
pub mod listener;
pub mod reactor;
pub mod slot;
