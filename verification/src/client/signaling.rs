//! The client side of the HTTP signaling exchange: the wire message and the
//! `Authorization` header the client presents.
//!
//! The client POSTs its SDP offer *plus its trickled ICE candidates* to the
//! server's `/offer` endpoint and receives the server's answer plus the
//! server's candidates, in the W3C `RTCSessionDescription` shape flattened
//! together with a `candidates` array.
use vstd::prelude::*;
use crate::server::signaling::{bearer, IceCandidateInit, SessionDescription};
use vstd::string::StringExecFns;

verus! {

/// The signaling wire message: an SDP description plus the trickled ICE
/// candidates gathered alongside it.
#[derive(Debug, Clone)]
pub struct SignalingMessage {
    pub description: SessionDescription,
    pub candidates: Vec<IceCandidateInit>,
}

/// The `Authorization` header value to send: `Bearer <token>`, or none when
/// no token is configured.
pub fn authorization_header(auth_token: &str) -> (h: Option<String>)
    ensures
        auth_token@.len() == 0 ==> h is None,
        auth_token@.len() > 0 ==> (h matches Some(v) && v@ == bearer(auth_token@)),
{
    if auth_token.is_empty() {
        None
    } else {
        Some("Bearer ".to_owned().concat(auth_token))
    }
}

} // verus!
