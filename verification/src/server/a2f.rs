//! The Audio2Face-3D bridge client's settings and decisions.
//!
//! The server writes the TTS WAV to a temporary file, runs the `a2f-bridge`
//! binary on it and captures its NDJSON stdout (a header line naming the 52
//! ARKit blendshapes, then one frame per line). Any failure yields no track,
//! so the avatar degrades to audio-only: the voice loop is never broken by
//! the avatar layer.
use vstd::prelude::*;
use crate::server::config::A2fConfig;
use crate::text::trim;

verus! {

/// Client for the `a2f-bridge` subprocess.
pub struct A2fClient {
    enabled: bool,
    bridge_path: String,
    endpoint: String,
    timeout_secs: u64,
}

/// The view of a bridge client: its settings.
pub struct A2fClientView {
    pub enabled: bool,
    pub bridge_path: Seq<char>,
    pub endpoint: Seq<char>,
    pub timeout_secs: u64,
}

impl View for A2fClient {
    type V = A2fClientView;

    closed spec fn view(&self) -> A2fClientView {
        A2fClientView {
            enabled: self.enabled,
            bridge_path: self.bridge_path@,
            endpoint: self.endpoint@,
            timeout_secs: self.timeout_secs,
        }
    }
}

impl A2fClient {
    /// Build a client from A2F configuration.
    pub fn new(config: &A2fConfig) -> (c: Self)
        ensures
            c@ == (A2fClientView {
                enabled: config.enabled,
                bridge_path: config.bridge_path@,
                endpoint: config.endpoint@,
                timeout_secs: config.timeout_secs,
            }),
    {
        A2fClient {
            enabled: config.enabled,
            bridge_path: config.bridge_path.clone(),
            endpoint: config.endpoint.clone(),
            timeout_secs: config.timeout_secs,
        }
    }

    /// Whether blendshapes are produced at all.
    pub fn enabled(&self) -> (b: bool)
        ensures
            b == self@.enabled,
    {
        self.enabled
    }

    /// The path of the bridge binary.
    pub fn bridge_path(&self) -> (p: &str)
        ensures
            p@ == self@.bridge_path,
    {
        self.bridge_path.as_str()
    }

    /// The Audio2Face-3D service endpoint handed to the bridge.
    pub fn endpoint(&self) -> (e: &str)
        ensures
            e@ == self@.endpoint,
    {
        self.endpoint.as_str()
    }

    /// How long the bridge may run before it is killed.
    pub fn timeout_secs(&self) -> (t: u64)
        ensures
            t == self@.timeout_secs,
    {
        self.timeout_secs
    }
}

/// The blendshape track of the bridge's captured stdout: `None` when it is
/// blank, the output itself otherwise.
pub fn bridge_track(stdout: String) -> (r: Option<String>)
    ensures
        r is None <==> trim(stdout@).len() == 0,
        r matches Some(t) ==> t@ == stdout@,
{
    crate::text::nonblank(stdout)
}

} // verus!
