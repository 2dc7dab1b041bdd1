//! An adaptive media-segment delivery engine for DASH-style streaming.
//!
//! The crate holds the decisions of the engine: which spans of time a sink
//! has buffered, how a segment template becomes a path, what a fetched
//! segment says about its own timing, which segment a track asks for next,
//! and how the player schedules its work. Transport, the playback sink and
//! the playback surface are left to the caller, who hands their results in
//! as plain values.

pub mod buffer;
pub mod manifest;
pub mod parse;
pub mod player;
pub mod range;
pub mod template;

pub use player::PlayerState;
