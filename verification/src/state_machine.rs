//! The presence state machine: the single source of truth that drives the
//! orb's color and motion.
//!
//! States are the *presence* of Skye; `muted` and `conversation_active` are
//! orthogonal flags, not states, because you can be muted (or in a warm
//! multi-turn conversation) in any state.
use vstd::prelude::*;

verus! {

/// The presence state of the client.
#[derive(Debug, Clone, Copy, PartialEq, Eq, Structural)]
pub enum State {
    Disconnected,
    Idle,
    Listening,
    Thinking,
    Speaking,
}

/// The orb color of a state (a CSS color).
pub open spec fn color_of(s: State) -> Seq<char> {
    match s {
        State::Disconnected => "#4a4a55"@,
        State::Idle => "#5b8def"@,
        State::Listening => "#3b82f6"@,
        State::Thinking => "#f59e0b"@,
        State::Speaking => "#14b8a6"@,
    }
}

/// The orb motion of a state.
pub open spec fn motion_of(s: State) -> Seq<char> {
    match s {
        State::Disconnected => "static"@,
        State::Idle => "breathing"@,
        State::Listening => "level"@,
        State::Thinking => "pulsing"@,
        State::Speaking => "level"@,
    }
}

impl State {
    /// Orb color for this state (CSS color). Motion first, color second,
    /// label third: colorblind-safe.
    pub fn color(&self) -> (c: &'static str)
        ensures
            c@ == color_of(*self),
    {
        match self {
            State::Disconnected => "#4a4a55",
            State::Idle => "#5b8def",
            State::Listening => "#3b82f6",
            State::Thinking => "#f59e0b",
            State::Speaking => "#14b8a6",
        }
    }

    /// Orb motion for this state.
    pub fn motion(&self) -> (m: &'static str)
        ensures
            m@ == motion_of(*self),
    {
        match self {
            State::Disconnected => "static",
            State::Idle => "breathing",
            State::Listening => "level",
            State::Thinking => "pulsing",
            State::Speaking => "level",
        }
    }
}

/// The full client state: presence state plus the orthogonal flags.
#[derive(Debug, Clone, Copy, PartialEq, Eq, Structural)]
pub struct ClientState {
    pub state: State,
    pub muted: bool,
    /// True while in a warm multi-turn conversation (no wake word needed
    /// between turns). False when cold (wake word required to listen).
    pub conversation_active: bool,
}

/// The state a fresh client starts in: disconnected, unmuted, cold.
pub open spec fn initial_client_state() -> ClientState {
    ClientState { state: State::Disconnected, muted: false, conversation_active: false }
}

/// A presence state in which a conversation is in flight.
pub open spec fn in_conversation(s: State) -> bool {
    s == State::Listening || s == State::Thinking || s == State::Speaking
}

impl ClientState {
    /// The warm flag is set exactly while a conversation is in flight
    /// (listening, thinking or speaking). Every state the machine can reach
    /// satisfies this.
    pub open spec fn well_formed(self) -> bool {
        self.conversation_active <==> in_conversation(self.state)
    }
}

impl Default for ClientState {
    fn default() -> (s: Self)
        ensures
            s == initial_client_state(),
    {
        ClientState { state: State::Disconnected, muted: false, conversation_active: false }
    }
}

/// A transition request. The machine decides whether it is legal.
#[derive(Debug, Clone, Copy, PartialEq, Eq, Structural)]
pub enum Transition {
    Connect,
    Disconnect,
    WakeWord,
    UtteranceComplete,
    ResponseStarted,
    ResponseComplete,
    /// Interrupt in-flight speech and hand the floor back to the user.
    /// Legal from Speaking while warm: Speaking -> Listening.
    BargeIn,
    /// The warm conversation's inactivity gap elapsed. Ends the session:
    /// Listening -> Idle, conversation_active = false.
    InactivityTimeout,
    /// Abort an in-flight listen/think and return to idle (e.g. silence
    /// timeout, or a send/receive error). Legal from Listening or Thinking.
    Cancel,
    ToggleMute,
    SetMute(bool),
}

/// The same state with a new presence state.
pub open spec fn with_state(s: ClientState, st: State) -> ClientState {
    ClientState { state: st, muted: s.muted, conversation_active: s.conversation_active }
}

/// The same state with a new presence state and warm flag.
pub open spec fn with_state_and_warmth(s: ClientState, st: State, warm: bool) -> ClientState {
    ClientState { state: st, muted: s.muted, conversation_active: warm }
}

/// The same state with a new mute flag.
pub open spec fn with_muted(s: ClientState, m: bool) -> ClientState {
    ClientState { state: s.state, muted: m, conversation_active: s.conversation_active }
}

/// The transition relation: `Some(next)` when `t` is legal in `s` and
/// changes it, `None` when `t` is illegal or a no-op.
pub open spec fn next_state(s: ClientState, t: Transition) -> Option<ClientState> {
    match t {
        Transition::Connect => if s.state == State::Disconnected {
            Some(with_state(s, State::Idle))
        } else {
            None
        },
        Transition::Disconnect => if s.state != State::Disconnected {
            Some(with_state_and_warmth(s, State::Disconnected, false))
        } else {
            None
        },
        Transition::WakeWord => if s.state == State::Idle && !s.muted {
            Some(with_state_and_warmth(s, State::Listening, true))
        } else {
            None
        },
        Transition::UtteranceComplete => if s.state == State::Listening {
            Some(with_state(s, State::Thinking))
        } else {
            None
        },
        Transition::ResponseStarted => if s.state == State::Thinking {
            Some(with_state(s, State::Speaking))
        } else {
            None
        },
        Transition::ResponseComplete => if s.state == State::Speaking {
            if s.conversation_active {
                Some(with_state(s, State::Listening))
            } else {
                Some(with_state(s, State::Idle))
            }
        } else {
            None
        },
        Transition::BargeIn => if s.state == State::Speaking && s.conversation_active {
            Some(with_state(s, State::Listening))
        } else {
            None
        },
        Transition::InactivityTimeout => if s.state == State::Listening {
            Some(with_state_and_warmth(s, State::Idle, false))
        } else {
            None
        },
        Transition::Cancel => if s.state == State::Listening || s.state == State::Thinking {
            Some(with_state_and_warmth(s, State::Idle, false))
        } else {
            None
        },
        Transition::ToggleMute => Some(with_muted(s, !s.muted)),
        Transition::SetMute(m) => if s.muted != m {
            Some(with_muted(s, m))
        } else {
            None
        },
    }
}

/// The state after `t` is applied to `s`: the next state when the transition
/// is legal, `s` itself otherwise.
pub open spec fn after(s: ClientState, t: Transition) -> ClientState {
    match next_state(s, t) {
        Some(n) => n,
        None => s,
    }
}

/// The state reached from `s` by applying each transition of `ts` in turn.
pub open spec fn run(s: ClientState, ts: Seq<Transition>) -> ClientState
    decreases ts.len(),
{
    if ts.len() == 0 {
        s
    } else {
        run(after(s, ts[0]), ts.drop_first())
    }
}

/// A legal transition from a well-formed state leads to a well-formed
/// state: the warm flag keeps agreeing with the presence state.
pub proof fn transitions_preserve_well_formedness(s: ClientState, t: Transition)
    requires
        s.well_formed(),
    ensures
        after(s, t).well_formed(),
{
}

/// Every state reachable from a fresh machine is well formed; in
/// particular a cold machine (no wake word) is never listening, thinking or
/// speaking.
pub proof fn reachable_states_are_well_formed(ts: Seq<Transition>)
    ensures
        run(initial_client_state(), ts).well_formed(),
{
    lemma_run_preserves_well_formedness(initial_client_state(), ts);
}

proof fn lemma_run_preserves_well_formedness(s: ClientState, ts: Seq<Transition>)
    requires
        s.well_formed(),
    ensures
        run(s, ts).well_formed(),
    decreases ts.len(),
{
    if ts.len() > 0 {
        transitions_preserve_well_formedness(s, ts[0]);
        lemma_run_preserves_well_formedness(after(s, ts[0]), ts.drop_first());
    }
}

/// `apply` answers `Some` exactly when the state changes: a reported new
/// state always differs from the old one, and a `None` leaves it as it was.
pub proof fn apply_reports_exactly_the_changes(s: ClientState, t: Transition)
    ensures
        next_state(s, t) matches Some(n) ==> n != s && after(s, t) == n,
        next_state(s, t) is None ==> after(s, t) == s,
{
}

/// The wake word is refused while muted: a muted client cannot start
/// listening from idle.
pub proof fn wake_word_refused_while_muted(s: ClientState)
    requires
        s.muted,
    ensures
        next_state(s, Transition::WakeWord) is None,
        after(s, Transition::WakeWord) == s,
{
}

/// Barge-in is refused while cold: only a warm conversation can hand the
/// floor back to the user mid-speech.
pub proof fn barge_in_refused_while_cold(s: ClientState)
    requires
        !s.conversation_active,
    ensures
        next_state(s, Transition::BargeIn) is None,
{
}

/// The mute flag and the presence state are orthogonal: mute transitions
/// touch only the mute flag, and every other transition leaves it alone.
pub proof fn mute_is_orthogonal_to_presence(s: ClientState, t: Transition)
    ensures
        (t is ToggleMute || t is SetMute) ==> after(s, t).state == s.state
            && after(s, t).conversation_active == s.conversation_active,
        !(t is ToggleMute || t is SetMute) ==> after(s, t).muted == s.muted,
{
}

/// Toggling the mute flag twice restores the original state.
pub proof fn toggle_mute_twice_restores(s: ClientState)
    ensures
        after(after(s, Transition::ToggleMute), Transition::ToggleMute) == s,
{
}

/// After `SetMute(m)` the mute flag is `m`, whatever it was before.
pub proof fn set_mute_sets_the_flag(s: ClientState, m: bool)
    ensures
        after(s, Transition::SetMute(m)).muted == m,
{
}

/// Disconnecting always ends in the disconnected, cold state.
pub proof fn disconnect_ends_cold(s: ClientState)
    requires
        s.well_formed(),
    ensures
        after(s, Transition::Disconnect).state == State::Disconnected,
        !after(s, Transition::Disconnect).conversation_active,
{
}

/// The end of a reply in a warm conversation hands the floor back to the
/// user without a wake word.
pub proof fn warm_reply_returns_to_listening(s: ClientState)
    requires
        s.well_formed(),
        s.state == State::Speaking,
    ensures
        after(s, Transition::ResponseComplete).state == State::Listening,
        after(s, Transition::ResponseComplete).conversation_active,
{
}

/// Cancel aborts only a listen or a think in flight: from listening or
/// thinking it returns to idle and ends the warm session (the mute flag
/// kept); from any other state, a reply being spoken included, it is refused
/// and the state stays as it was.
pub proof fn cancel_only_aborts_a_listen_or_a_think(s: ClientState)
    ensures
        (s.state == State::Listening || s.state == State::Thinking) ==> (next_state(
            s,
            Transition::Cancel,
        ) matches Some(n) && n.state == State::Idle && !n.conversation_active && n.muted
            == s.muted),
        !(s.state == State::Listening || s.state == State::Thinking) ==> next_state(
            s,
            Transition::Cancel,
        ) is None && after(s, Transition::Cancel) == s,
{
}

/// A reply being spoken ends only by completing, by barge-in, or by
/// disconnecting: every other transition that leaves the speaking state is
/// impossible.
pub proof fn speech_ends_only_by_completion_barge_in_or_disconnect(s: ClientState, t: Transition)
    requires
        s.state == State::Speaking,
        after(s, t).state != State::Speaking,
    ensures
        t is ResponseComplete || t is BargeIn || t is Disconnect,
{
}

/// The state machine. Owns the current state and validates transitions.
pub struct StateMachine {
    current: ClientState,
}

impl View for StateMachine {
    type V = ClientState;

    closed spec fn view(&self) -> ClientState {
        self.current
    }
}

impl StateMachine {
    #[verifier::type_invariant]
    spec fn current_is_well_formed(self) -> bool {
        self.current.well_formed()
    }

    pub fn new() -> (m: Self)
        ensures
            m@ == initial_client_state(),
    {
        StateMachine { current: ClientState::default() }
    }

    /// The current state. It is always well formed: the warm flag is set
    /// exactly while listening, thinking or speaking.
    pub fn current(&self) -> (s: ClientState)
        ensures
            s == self@,
            s.well_formed(),
    {
        proof {
            use_type_invariant(self);
        }
        self.current
    }

    /// Apply a transition. Returns `Some(new_state)` if the transition
    /// changed state, `None` if it was a no-op or illegal (and then the state
    /// is unchanged).
    pub fn apply(&mut self, t: Transition) -> (r: Option<ClientState>)
        ensures
            r == next_state(old(self)@, t),
            final(self)@ == after(old(self)@, t),
    {
        proof {
            use_type_invariant(&*self);
        }
        let s = self.current;
        let next: ClientState = match t {
            Transition::Connect => {
                if s.state == State::Disconnected {
                    ClientState { state: State::Idle, ..s }
                } else {
                    return None;
                }
            },
            Transition::Disconnect => {
                if s.state != State::Disconnected {
                    ClientState { state: State::Disconnected, conversation_active: false, ..s }
                } else {
                    return None;
                }
            },
            Transition::WakeWord => {
                // Cannot listen while muted or disconnected. Only from Idle
                // (cold): in a warm conversation the user just speaks.
                if s.state == State::Idle && !s.muted {
                    ClientState { state: State::Listening, conversation_active: true, ..s }
                } else {
                    return None;
                }
            },
            Transition::UtteranceComplete => {
                if s.state == State::Listening {
                    ClientState { state: State::Thinking, ..s }
                } else {
                    return None;
                }
            },
            Transition::ResponseStarted => {
                if s.state == State::Thinking {
                    ClientState { state: State::Speaking, ..s }
                } else {
                    return None;
                }
            },
            Transition::ResponseComplete => {
                if s.state == State::Speaking {
                    // Warm conversation: keep listening; cold: back to idle.
                    if s.conversation_active {
                        ClientState { state: State::Listening, ..s }
                    } else {
                        ClientState { state: State::Idle, ..s }
                    }
                } else {
                    return None;
                }
            },
            Transition::BargeIn => {
                // Interrupt speech, hand the floor back. Only while warm.
                if s.state == State::Speaking && s.conversation_active {
                    ClientState { state: State::Listening, ..s }
                } else {
                    return None;
                }
            },
            Transition::InactivityTimeout => {
                // End the warm session after the silence gap.
                if s.state == State::Listening {
                    ClientState { state: State::Idle, conversation_active: false, ..s }
                } else {
                    return None;
                }
            },
            Transition::Cancel => {
                match s.state {
                    State::Listening | State::Thinking => {
                        ClientState { state: State::Idle, conversation_active: false, ..s }
                    },
                    _ => return None,
                }
            },
            Transition::ToggleMute => ClientState { muted: !s.muted, ..s },
            Transition::SetMute(m) => {
                if s.muted != m {
                    ClientState { muted: m, ..s }
                } else {
                    return None;
                }
            },
        };
        self.current = next;
        Some(next)
    }
}

impl Default for StateMachine {
    fn default() -> (m: Self)
        ensures
            m@ == initial_client_state(),
    {
        Self::new()
    }
}

} // verus!
