//! Verified core of a VEX V5 brain communication library: packet framing,
//! response decoding and the encodings of the brain's system commands.
pub mod bytes;
pub mod checksum;
pub mod buffer;
pub mod connection;
pub mod text;
pub mod error;
pub mod brain;
pub mod packet;
pub mod upload;
pub mod package;
pub mod serial;
pub mod terminal;
pub mod plugin;
