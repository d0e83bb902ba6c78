//! The brain's commands: the bytes of each request and the reading of each response.
pub mod competition;
pub mod filesystem;
pub mod system;
