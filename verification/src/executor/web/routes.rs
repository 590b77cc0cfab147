pub use crate::routes::{configure, index};
