//! A relay gateway between an audio-producing client and an upstream analysis
//! server: the decisions of each relay leg, the sliding-window aggregation of
//! PCM chunks, the audio-format handshake, and the supervision of a session.
//! Sockets, channels, locks and the numeric analysis are driven by the caller.

pub mod errors;
pub mod audio;
pub mod window;
pub mod samples;
pub mod relay;
pub mod session;
