//! The cooperative server routes with the router of the state-machine
//! server. Of a request it reads the first line, whose words any run of
//! white space separates; a request without any text resolves to `Empty`,
//! which leaves nothing to answer.

pub use crate::router::{Method, Resolution, Resolved, Route, Router};
