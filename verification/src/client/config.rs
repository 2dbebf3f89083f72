//! Client configuration sections and their defaults.
//!
//! The client is the *initiating* peer, so it needs no fixed WebRTC port: it
//! binds an ephemeral UDP socket. It must know where to POST its SDP offer
//! (the server's HTTP signaling endpoint) and which STUN servers to use for
//! ICE candidate gathering.
use vstd::prelude::*;

verus! {

/// HTTP signaling settings (the SDP offer/answer exchange).
#[derive(Debug, Clone, PartialEq)]
pub struct SignalingConfig {
    /// The HTTP endpoint the client POSTs its SDP offer to.
    pub url: String,
    /// Shared secret presented to the server as `Authorization: Bearer
    /// <token>`. Empty = no auth (localhost dev).
    pub auth_token: String,
}

impl Default for SignalingConfig {
    fn default() -> (c: Self)
        ensures
            c.url@ == "http://localhost:29435/offer"@,
            c.auth_token@.len() == 0,
    {
        SignalingConfig { url: "http://localhost:29435/offer".to_owned(), auth_token: String::new() }
    }
}

/// WebRTC transport settings.
#[derive(Debug, Clone, PartialEq)]
pub struct WebrtcConfig {
    /// STUN servers used for ICE candidate gathering. Host-only candidates
    /// are not reachable across NAT, so a public STUN server is required for
    /// the client to reach the server over the internet. Defaults to
    /// Google's public STUN.
    pub stun_servers: Vec<String>,
}

impl Default for WebrtcConfig {
    fn default() -> (c: Self)
        ensures
            c.stun_servers@.len() == 1,
            c.stun_servers@[0]@ == "stun:stun.l.google.com:19302"@,
    {
        let mut stun_servers: Vec<String> = Vec::new();
        stun_servers.push("stun:stun.l.google.com:19302".to_owned());
        WebrtcConfig { stun_servers }
    }
}

/// Speech-to-text settings (Moonshine Voice sidecar).
#[derive(Debug, Clone, PartialEq)]
pub struct SttConfig {
    /// The Python interpreter that runs the sidecar (the venv's Python, which
    /// has `moonshine-voice` installed).
    pub python: String,
    /// Path to the Python sidecar script, relative to the working directory.
    pub sidecar_path: String,
    /// Language code passed to the sidecar (`--language`).
    pub language: String,
    /// Moonshine streaming model arch (`--model-arch`): one of
    /// `tiny-streaming`, `small-streaming`, `medium-streaming`.
    pub model_arch: String,
}

impl Default for SttConfig {
    fn default() -> (c: Self)
        ensures
            c.python@ == "python3"@,
            c.sidecar_path@ == "sidecar/stt.py"@,
            c.language@ == "en"@,
            c.model_arch@ == "small-streaming"@,
    {
        SttConfig {
            python: "python3".to_owned(),
            sidecar_path: "sidecar/stt.py".to_owned(),
            language: "en".to_owned(),
            model_arch: "small-streaming".to_owned(),
        }
    }
}

/// Conversation-loop settings (the wake -> STT -> respond orchestration).
#[derive(Debug, Clone, Copy, PartialEq)]
pub struct ConversationConfig {
    /// Whether to start the full conversation loop automatically at launch.
    pub auto_start: bool,
    /// Silence timeout (seconds): if no utterance completes within this
    /// window after the wake word, return to idle.
    pub silence_timeout_secs: u64,
    /// Inactivity timeout (seconds): how long of silence after the agent
    /// finishes speaking before the warm multi-turn session ends and the
    /// client returns to cold (wake word required again).
    pub inactivity_timeout_secs: u64,
}

impl Default for ConversationConfig {
    fn default() -> (c: Self)
        ensures
            !c.auto_start,
            c.silence_timeout_secs == 15,
            c.inactivity_timeout_secs == 5,
    {
        ConversationConfig { auto_start: false, silence_timeout_secs: 15, inactivity_timeout_secs: 5 }
    }
}

} // verus!
