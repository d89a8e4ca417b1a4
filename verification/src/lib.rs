//! Per-room media playback coordination for a chat-platform bot.
//!
//! The crate models one room's playback queue as an explicit state machine:
//! an ordered track list, a playing index, mode flags, and the reference to
//! the single live status message.  Transport commands (play, pause, skip,
//! previous, stop, loop) and engine lifecycle events (track started, track
//! ended) are verified transitions on that state; rendering the state into a
//! status display is a verified pure function.  The surrounding process keeps
//! all I/O — chat transport, the voice engine, metadata resolution — outside
//! this crate and hands plain values in.

pub mod cleanup;
pub mod errors;
pub mod events;
pub mod laws;
pub mod numfmt;
pub mod persist;
pub mod playlist;
pub mod queue;
pub mod render;
pub mod store;
pub mod track;
pub mod transport;
