//! The session with the game client: its records and what is computed from them.

pub mod client;
pub mod codec;
pub mod types;
