//! Prosopon: the verified core of Skye's voice presence client and server.
//!
//! - [`state_machine`]: the presence state machine that drives the orb.
//! - [`server`]: configuration, signaling checks, the WAV header repair, the
//!   data-channel audio framing and the agent loop of a pipeline turn.
//! - [`client`]: configuration, the sidecar line protocol, the audio
//!   reassembly on the receiving side and the conversation loop decisions.
//! - [`bridge`]: the request stream sent to the Audio2Face-3D service.

pub mod state_machine;
pub mod text;
pub mod server;
pub mod client;
pub mod bridge;
