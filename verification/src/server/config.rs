//! Server configuration and its defaults.
//!
//! Every field is optional in the YAML: missing keys fall back to the
//! default of the containing section, so a bare `{}` config yields the
//! defaults below (Kokoro `af_heart`, Ollama `qwen2.5:3b`, WebRTC port 29434).
use vstd::prelude::*;

verus! {

/// Top-level server configuration.
#[derive(Debug, Clone, PartialEq)]
pub struct Config {
    pub tts: TtsConfig,
    pub cognition: CognitionConfig,
    pub webrtc: WebrtcConfig,
    pub web_search: WebSearchConfig,
    pub a2f: A2fConfig,
    pub signaling: SignalingConfig,
}

/// Kokoro TTS settings.
#[derive(Debug, Clone, PartialEq)]
pub struct TtsConfig {
    pub base_url: String,
    pub model: String,
    pub voice: String,
}

/// Ollama cognition settings.
#[derive(Debug, Clone, PartialEq)]
pub struct CognitionConfig {
    pub base_url: String,
    pub model: String,
}

/// WebRTC transport settings.
#[derive(Debug, Clone, PartialEq)]
pub struct WebrtcConfig {
    pub listen_port: u16,
    /// STUN servers used for ICE candidate gathering (none: host-only ICE).
    pub stun_servers: Vec<String>,
}

/// Web search settings: the provider (`use` in the YAML: `tavily` or
/// `brave`) and the API key of each provider.
#[derive(Debug, Clone, PartialEq)]
pub struct WebSearchConfig {
    pub provider: String,
    pub tavily_api_key: String,
    pub brave_api_key: String,
}

/// Audio2Face-3D bridge settings.
#[derive(Debug, Clone, PartialEq)]
pub struct A2fConfig {
    pub enabled: bool,
    pub bridge_path: String,
    pub endpoint: String,
    pub timeout_secs: u64,
}

/// HTTP signaling settings.
#[derive(Debug, Clone, PartialEq)]
pub struct SignalingConfig {
    pub listen_port: u16,
    /// Shared secret expected as `Authorization: Bearer <token>`. Empty = no
    /// auth (localhost dev).
    pub auth_token: String,
    pub tls: TlsConfig,
}

/// TLS settings of the signaling endpoint: PEM certificate chain and
/// private key paths.
#[derive(Debug, Clone, PartialEq)]
pub struct TlsConfig {
    pub cert: String,
    pub key: String,
}

impl TlsConfig {
    /// HTTPS is served when both a certificate and a key are configured.
    pub fn enabled(&self) -> (b: bool)
        ensures
            b == (self.cert@.len() > 0 && self.key@.len() > 0),
    {
        !self.cert.as_str().is_empty() && !self.key.as_str().is_empty()
    }
}

impl Default for TtsConfig {
    fn default() -> (c: Self)
        ensures
            c.base_url@ == "http://localhost:21802"@,
            c.model@ == "kokoro"@,
            c.voice@ == "af_heart"@,
    {
        TtsConfig {
            base_url: "http://localhost:21802".to_owned(),
            model: "kokoro".to_owned(),
            voice: "af_heart".to_owned(),
        }
    }
}

impl Default for CognitionConfig {
    fn default() -> (c: Self)
        ensures
            c.base_url@ == "http://localhost:11434"@,
            c.model@ == "qwen2.5:3b"@,
    {
        CognitionConfig {
            base_url: "http://localhost:11434".to_owned(),
            model: "qwen2.5:3b".to_owned(),
        }
    }
}

impl Default for WebrtcConfig {
    fn default() -> (c: Self)
        ensures
            c.listen_port == 29434,
            c.stun_servers@.len() == 0,
    {
        WebrtcConfig { listen_port: 29434, stun_servers: Vec::new() }
    }
}

impl Default for WebSearchConfig {
    fn default() -> (c: Self)
        ensures
            c.provider@ == "tavily"@,
            c.tavily_api_key@.len() == 0,
            c.brave_api_key@.len() == 0,
    {
        WebSearchConfig {
            provider: "tavily".to_owned(),
            tavily_api_key: String::new(),
            brave_api_key: String::new(),
        }
    }
}

impl Default for A2fConfig {
    fn default() -> (c: Self)
        ensures
            !c.enabled,
            c.bridge_path@ == "a2f-bridge"@,
            c.endpoint@ == "http://localhost:52000"@,
            c.timeout_secs == 30,
    {
        A2fConfig {
            enabled: false,
            bridge_path: "a2f-bridge".to_owned(),
            endpoint: "http://localhost:52000".to_owned(),
            timeout_secs: 30,
        }
    }
}

impl Default for TlsConfig {
    fn default() -> (c: Self)
        ensures
            c.cert@.len() == 0,
            c.key@.len() == 0,
    {
        TlsConfig { cert: String::new(), key: String::new() }
    }
}

impl Default for SignalingConfig {
    fn default() -> (c: Self)
        ensures
            c.listen_port == 29435,
            c.auth_token@.len() == 0,
            c.tls.cert@.len() == 0,
            c.tls.key@.len() == 0,
    {
        SignalingConfig { listen_port: 29435, auth_token: String::new(), tls: TlsConfig::default() }
    }
}

impl Default for Config {
    fn default() -> (c: Self)
        ensures
            c.tts.base_url@ == "http://localhost:21802"@,
            c.tts.model@ == "kokoro"@,
            c.tts.voice@ == "af_heart"@,
            c.cognition.base_url@ == "http://localhost:11434"@,
            c.cognition.model@ == "qwen2.5:3b"@,
            c.webrtc.listen_port == 29434,
            c.webrtc.stun_servers@.len() == 0,
            c.web_search.provider@ == "tavily"@,
            c.web_search.tavily_api_key@.len() == 0,
            c.web_search.brave_api_key@.len() == 0,
            !c.a2f.enabled,
            c.a2f.bridge_path@ == "a2f-bridge"@,
            c.a2f.endpoint@ == "http://localhost:52000"@,
            c.a2f.timeout_secs == 30,
            c.signaling.listen_port == 29435,
            c.signaling.auth_token@.len() == 0,
            c.signaling.tls.cert@.len() == 0,
            c.signaling.tls.key@.len() == 0,
    {
        Config {
            tts: TtsConfig::default(),
            cognition: CognitionConfig::default(),
            webrtc: WebrtcConfig::default(),
            web_search: WebSearchConfig::default(),
            a2f: A2fConfig::default(),
            signaling: SignalingConfig::default(),
        }
    }
}

} // verus!
