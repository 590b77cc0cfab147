//! The scheduling core of a small web server: a multiplexer that tracks the
//! interest registered for each handle, an event loop that drives
//! connections as state machines, an executor that resumes cooperative
//! tasks through wakers, and the routing and response formatting that the
//! connections use. The crate decides; sockets, files, threads and the
//! readiness facility itself are left to the caller, which does what each
//! turn asks for and hands the outcome back.

pub mod async_io;
pub mod executor;
pub mod multiplexer;
pub mod nix;
pub mod response;
pub mod route_path;
pub mod router;
pub mod routes;
pub mod text;
pub mod thread_pool;
pub mod worker;
