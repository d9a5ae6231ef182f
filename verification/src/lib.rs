//! A verified roster engine for a turn-based initiative tracker.
//!
//! The library keeps an ordered roster of combat actors, each with a name
//! and an initiative score, together with a pointer to the actor whose turn
//! is active. All mutating operations validate their inputs, keep the
//! roster sorted by initiative (non-increasing), keep names unique, and
//! keep the turn pointer valid.

pub mod cli;
pub mod tracker;
