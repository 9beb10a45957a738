//! Per-guild playback-state coordination for a music bot: the replay buffer,
//! the queue mutation protocol, the track-completion reactor, vote skipping
//! and the paginated queue displays.
//!
//! The playback engine owns the live queue. This library never touches it:
//! each command reads the live queue's length, updates the guild's state, and
//! returns the engine commands that change the live queue the same way.

pub mod cache;
pub mod commands;
pub mod connection;
pub mod engine;
pub mod errors;
pub mod guild;
pub mod idle;
pub mod laws;
pub mod queue;
pub mod settings;
pub mod stored_queue;
pub mod track_end;
pub mod utils;
pub mod voteskip;
