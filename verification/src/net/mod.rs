//! A store of named variables and the text protocol that drives it.

pub mod client;
pub mod codec;
pub mod server;
pub mod store;
pub mod text;
pub mod variant;
