//! Core of a Discord gateway client: the wire codec for gateway frames, the
//! protocol state machine that drives a session (hello, identify, heartbeat
//! cadence, sequence tracking, close signals), and the intents bitmask.
//!
//! All I/O — the websocket itself, timers, logging — lives outside this
//! library; callers feed inbound frame text in and carry encoded frames out.

pub mod codec;
pub mod dispatcher;
pub mod intents;
pub mod json;
