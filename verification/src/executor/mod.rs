pub mod async_io;
pub mod async_net;
pub mod web;
