pub mod node;
pub mod response;
pub mod router;
pub mod routes;
