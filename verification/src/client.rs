//! The client side: configuration, the data-channel receiver, the sidecar
//! line protocol and the conversation loop's decisions.

pub mod webrtc_client;
pub mod config;
pub mod stt;
pub mod wake_word;
pub mod conversation;
pub mod signaling;
pub mod logs;
