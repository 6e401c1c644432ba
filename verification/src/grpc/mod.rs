//! The connection to the workers inside of sandboxes.
pub mod client;
