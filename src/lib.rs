//! Decoding and dispatch of badge-program instructions into relational rows.
pub mod encoding;
pub mod handler;
pub mod instruction;
pub mod payload;
pub mod store;
pub mod wire;
