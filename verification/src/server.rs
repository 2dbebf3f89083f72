//! The server side: configuration, signaling, speech synthesis, cognition,
//! web search, the pipeline turn and the data-channel framing.

pub mod tts;
pub mod signaling;
pub mod webrtc;
pub mod cognition;
pub mod web_search;
pub mod pipeline;
pub mod config;
pub mod a2f;
