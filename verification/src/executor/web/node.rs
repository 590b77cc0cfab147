pub use crate::route_path::{Node, Trie};
