//! The HTTP signaling endpoint's logic: the wire message, the bearer-token
//! check in constant time, and the pruning of dead sessions.
//!
//! WebRTC requires an SDP offer/answer exchange *and* an ICE candidate
//! exchange before the data channel opens. The endpoint carries both in a
//! single round-trip: the client posts its description plus its candidates
//! and gets the answer back in the same shape.
use vstd::prelude::*;

verus! {

/// The type of a session description.
#[derive(Debug, Clone, Copy, PartialEq, Eq, Structural)]
pub enum SdpType {
    Unspecified,
    Offer,
    Pranswer,
    Answer,
    Rollback,
}

/// An SDP session description (`{"type": "offer", "sdp": "..."}`).
#[derive(Debug, Clone)]
pub struct SessionDescription {
    pub sdp_type: SdpType,
    pub sdp: String,
}

/// A trickled ICE candidate, as exchanged in the signaling message.
#[derive(Debug, Clone)]
pub struct IceCandidateInit {
    pub candidate: String,
    pub sdp_mid: Option<String>,
    pub sdp_mline_index: Option<u16>,
    pub username_fragment: Option<String>,
    pub url: Option<String>,
}

/// The signaling wire message: an SDP description plus the trickled ICE
/// candidates gathered alongside it.
#[derive(Debug, Clone)]
pub struct SignalingMessage {
    pub description: SessionDescription,
    pub candidates: Vec<IceCandidateInit>,
}

/// Constant-time byte comparison (length check first, then XOR-accumulate
/// over every byte, without an early exit). Prevents a timing side-channel
/// on the token check.
pub fn constant_time_eq(a: &[u8], b: &[u8]) -> (r: bool)
    ensures
        r == (a@ == b@),
{
    if a.len() != b.len() {
        return false;
    }
    let mut diff: u8 = 0;
    let n = a.len();
    for i in 0..n
        invariant
            n == a@.len(),
            n == b@.len(),
            diff == 0 <==> (forall|j: int| 0 <= j < i ==> a@[j] == b@[j]),
    {
        let x = a[i];
        let y = b[i];
        let d = diff;
        assert((d | (x ^ y)) == 0u8 <==> (d == 0u8 && x == y)) by (bit_vector);
        diff = d | (x ^ y);
    }
    assert(diff == 0 ==> a@ =~= b@);
    diff == 0
}

/// The value of the `Authorization` header that a token calls for.
pub open spec fn bearer(token: Seq<char>) -> Seq<char> {
    "Bearer "@ + token
}

/// Whether a request is let through: always when no token is configured
/// (localhost dev), otherwise exactly when the `Authorization` header reads
/// `Bearer <token>`.
pub open spec fn is_authorized(token: Seq<char>, provided: Option<Seq<char>>) -> bool {
    token.len() == 0 || provided == Some(bearer(token))
}

/// The text of an optional header value.
pub open spec fn header_text(provided: Option<&str>) -> Option<Seq<char>> {
    match provided {
        Some(p) => Some(p@),
        None => None,
    }
}

/// Check the request's `Authorization: Bearer <token>` header value
/// (`provided`, `None` when the header is absent or not valid text) against
/// the configured shared secret, in constant time. Empty token = auth
/// disabled.
pub fn authorized(auth_token: &str, provided: Option<&str>) -> (r: bool)
    ensures
        r == is_authorized(auth_token@, header_text(provided)),
{
    if auth_token.is_empty() {
        return true;
    }
    let expected: String = "Bearer ".to_owned().concat(auth_token);
    match provided {
        Some(p) => {
            let e: &str = expected.as_str();
            let r = constant_time_eq(p.as_bytes(), e.as_bytes());
            proof {
                vstd::utf8::encode_utf8_decode_utf8(p@);
                vstd::utf8::encode_utf8_decode_utf8(e@);
            }
            r
        },
        None => false,
    }
}

/// The states of a peer connection, as the signaling layer sees them.
#[derive(Debug, Clone, Copy, PartialEq, Eq, Structural)]
pub enum PeerConnectionState {
    Unspecified,
    New,
    Connecting,
    Connected,
    Disconnected,
    Failed,
    Closed,
}

/// A session is dead when its connection is `Closed` (we closed it),
/// `Failed` (the remote peer went away and ICE could not recover), or
/// `Disconnected` (the client disconnected and will not return).
pub open spec fn is_dead(s: PeerConnectionState) -> bool {
    s == PeerConnectionState::Disconnected || s == PeerConnectionState::Closed || s
        == PeerConnectionState::Failed
}

/// Whether a session in state `s` has ended and must be pruned.
pub fn session_is_dead(s: PeerConnectionState) -> (r: bool)
    ensures
        r == is_dead(s),
{
    match s {
        PeerConnectionState::Disconnected | PeerConnectionState::Closed
        | PeerConnectionState::Failed => true,
        _ => false,
    }
}

/// The sessions among the first `n` whose state is alive, in order.
pub open spec fn live_prefix<T>(sessions: Seq<T>, states: Seq<PeerConnectionState>, n: int) -> Seq<
    T,
>
    decreases n,
{
    if n <= 0 {
        Seq::empty()
    } else if is_dead(states[n - 1]) {
        live_prefix(sessions, states, n - 1)
    } else {
        live_prefix(sessions, states, n - 1).push(sessions[n - 1])
    }
}

/// The sessions among the first `n` whose state is dead, in order.
pub open spec fn dead_prefix<T>(sessions: Seq<T>, states: Seq<PeerConnectionState>, n: int) -> Seq<
    T,
>
    decreases n,
{
    if n <= 0 {
        Seq::empty()
    } else if is_dead(states[n - 1]) {
        dead_prefix(sessions, states, n - 1).push(sessions[n - 1])
    } else {
        dead_prefix(sessions, states, n - 1)
    }
}

/// Pruning partitions the sessions: every session ends up either among the
/// kept ones or among the dead ones, never both and never lost, and when no
/// session is dead nothing is pruned.
pub proof fn pruning_partitions_the_sessions<T>(sessions: Seq<T>, states: Seq<PeerConnectionState>, n: int)
    requires
        0 <= n <= sessions.len(),
        n <= states.len(),
    ensures
        live_prefix(sessions, states, n).len() + dead_prefix(sessions, states, n).len() == n,
        (forall|i: int| 0 <= i < n ==> !is_dead(#[trigger] states[i])) ==> live_prefix(
            sessions,
            states,
            n,
        ) == sessions.subrange(0, n) && dead_prefix(sessions, states, n).len() == 0,
    decreases n,
{
    if n > 0 {
        pruning_partitions_the_sessions(sessions, states, n - 1);
        if forall|i: int| 0 <= i < n ==> !is_dead(#[trigger] states[i]) {
            assert(!is_dead(states[n - 1]));
            assert(sessions.subrange(0, n - 1).push(sessions[n - 1]) =~= sessions.subrange(0, n));
        }
    } else {
        assert(sessions.subrange(0, 0) =~= Seq::<T>::empty());
    }
}

/// Remove the dead sessions from `sessions`, where `states[i]` is the
/// connection state of `sessions[i]`, and return them. The live sessions
/// keep their order, and so do the dead ones.
pub fn prune_dead_sessions<T>(sessions: &mut Vec<T>, states: &Vec<PeerConnectionState>) -> (dead:
    Vec<T>)
    requires
        old(sessions)@.len() == states@.len(),
    ensures
        final(sessions)@ == live_prefix(old(sessions)@, states@, states@.len() as int),
        dead@ == dead_prefix(old(sessions)@, states@, states@.len() as int),
{
    let ghost orig = sessions@;
    let n = states.len();
    let mut dead: Vec<T> = Vec::new();
    let mut i: usize = 0;
    for k in 0..n
        invariant
            n == states@.len(),
            n == orig.len(),
            sessions@ == live_prefix(orig, states@, k as int) + orig.subrange(k as int, n as int),
            dead@ == dead_prefix(orig, states@, k as int),
            i == live_prefix(orig, states@, k as int).len(),
            i <= k,
    {
        assert(sessions@[i as int] == orig[k as int]);
        if session_is_dead(states[k]) {
            let s = sessions.remove(i);
            dead.push(s);
            assert(sessions@ =~= live_prefix(orig, states@, k + 1) + orig.subrange(k + 1, n as int));
        } else {
            i = i + 1;
            assert(sessions@ =~= live_prefix(orig, states@, k + 1) + orig.subrange(k + 1, n as int));
        }
    }
    assert(orig.subrange(n as int, n as int) =~= Seq::<T>::empty());
    assert(sessions@ =~= live_prefix(orig, states@, n as int));
    dead
}

} // verus!
