//! Core of a realtime voice-conversion client: device selection, capture
//! framing, playback rendering, the network session's decisions and the
//! engine's lifecycle, each with a verified contract.

pub mod capture;
pub mod config;
pub mod device;
pub mod lifecycle;
pub mod pcm;
pub mod playback;
pub mod queue;
pub mod session;
