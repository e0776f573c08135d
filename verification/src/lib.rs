//! The core of a live companion overlay for an online competitive game.
//!
//! The overlay polls the game client, reconstructs the state of the match in progress,
//! and infers which players queued together as a party, which the game does not show.
//! This crate holds what is computed on the way; the requests themselves are made by
//! the caller, who asks the crate which lookup comes next and hands back the answer.
//!
//! - [`party`] infers the parties from partial signals (the caller's own party, the
//!   presences of friends, the recent matches), numbers the groups in the order in
//!   which they are first seen, and caches the result for the match in progress.
//!   [`party::laws`] states what holds of every resolution.
//! - [`commands`] decides the phase of a poll and assembles its snapshot.
//! - [`loadout`] extracts and caches the weapon skins of the players.
//! - [`api`] holds the records of the services and what the session computes from them.
//! - [`state`] bundles the session and the caches.
//! - [`constants`], [`dict`] and [`text`] hold the fixed tables, a dictionary keyed by
//!   strings, and helpers for the characters of strings.

pub mod api;
pub mod commands;
pub mod constants;
pub mod dict;
pub mod loadout;
pub mod party;
pub mod state;
pub mod text;
