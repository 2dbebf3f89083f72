//! The voice loop's decisions: wake word -> STT -> send -> receive -> play ->
//! repeat.
//!
//! The loop stays *warm* after a wake word: it listens for utterances
//! without requiring the wake word again until the inactivity timeout
//! elapses. The first listen after the wake word uses the longer silence
//! timeout (a grace period) and drains the STT pre-roll so the first word is
//! not clipped; later listens use the inactivity timeout. A barge-in (the
//! wake word heard during playback) interrupts the reply and hands the floor
//! back to the user.
//!
//! [`ConversationLoop`] decides, event by event, which presence transition to
//! apply and what the client does next; the client's runtime performs the
//! command (sidecars, WebRTC, playback) and reports the outcome.
use vstd::prelude::*;
use vstd::utf8::{decode_utf8, encode_utf8, is_char_boundary};
use crate::client::config::ConversationConfig;
use crate::state_machine::{after, run, ClientState, State, Transition};
use crate::text::{chars_of, string_of, trim, trim_bounds, trim_start, trim_start_bound};

verus! {

/// The text that `str::to_lowercase` makes of `s` (each character replaced
/// by its Unicode lowercase mapping).
pub uninterp spec fn lowercase(s: Seq<char>) -> Seq<char>;

/// Calls `str::to_lowercase`, whose result is a function of its argument
/// alone; the contract names that result and says nothing more of it.
#[verifier::external_body]
fn to_lowercase(s: &str) -> (r: String)
    ensures
        r@ == lowercase(s@),
{
    s.to_lowercase()
}

/// The spoken phrase of a wake-word model name: `_` read as a space
/// (`hey_jarvis` -> `hey jarvis`).
pub open spec fn model_phrase(model: Seq<char>) -> Seq<char> {
    model.map_values(|c: char| if c == '_' { ' ' } else { c })
}

fn phrase_of_model(model: &str) -> (p: String)
    ensures
        p@ == model_phrase(model@),
{
    let v = chars_of(model);
    let mut p = String::new();
    for i in 0..v.len()
        invariant
            v@ == model@,
            p@ == model_phrase(model@).subrange(0, i as int),
    {
        let c = if v[i] == '_' {
            ' '
        } else {
            v[i]
        };
        p.push(c);
        assert(p@ =~= model_phrase(model@).subrange(0, i + 1));
    }
    assert(model_phrase(model@).subrange(0, v@.len() as int) =~= model_phrase(model@));
    p
}

/// `n` occurs in `h` at byte offset `i`.
pub open spec fn occurs_at(h: Seq<u8>, n: Seq<u8>, i: int) -> bool {
    0 <= i && i + n.len() <= h.len() && h.subrange(i, i + n.len() as int) == n
}

/// The first offset at or after `i` where `n` occurs in `h` (`str::find`).
pub open spec fn find_from(h: Seq<u8>, n: Seq<u8>, i: int) -> Option<int>
    decreases (if 0 <= i <= h.len() { h.len() - i + 1 } else { 0 }),
{
    if 0 <= i && i + n.len() <= h.len() {
        if occurs_at(h, n, i) {
            Some(i)
        } else {
            find_from(h, n, i + 1)
        }
    } else {
        None
    }
}

/// Whether `n` occurs in `h` at byte offset `i`.
fn bytes_match_at(h: &[u8], n: &[u8], i: usize) -> (b: bool)
    requires
        i + n@.len() <= h@.len(),
    ensures
        b == occurs_at(h@, n@, i as int),
{
    let mut j: usize = 0;
    let mut same = true;
    let hl = h.len();
    while j < n.len()
        invariant
            hl == h@.len(),
            i + n@.len() <= h@.len(),
            j <= n@.len(),
            same == (forall|k: int| 0 <= k < j ==> h@[i + k] == n@[k]),
        decreases n@.len() - j,
    {
        if h[i + j] != n[j] {
            same = false;
        }
        j = j + 1;
    }
    if same {
        assert(h@.subrange(i as int, i + n@.len()) =~= n@);
    } else {
        proof {
            if occurs_at(h@, n@, i as int) {
                let k = choose|k: int| 0 <= k < n@.len() && h@[i + k] != n@[k];
                assert(h@.subrange(i as int, i + n@.len())[k] == h@[i + k]);
            }
        }
    }
    same
}

/// The byte offset of the first occurrence of `n` in `h`.
fn find_bytes(h: &[u8], n: &[u8]) -> (r: Option<usize>)
    ensures
        r matches Some(i) ==> find_from(h@, n@, 0) == Some(i as int),
        r is None ==> find_from(h@, n@, 0) is None,
{
    if n.len() > h.len() {
        return None;
    }
    let last = h.len() - n.len();
    let mut i: usize = 0;
    while i < last
        invariant
            last == h@.len() - n@.len(),
            i <= last,
            find_from(h@, n@, 0) == find_from(h@, n@, i as int),
        decreases last - i,
    {
        if bytes_match_at(h, n, i) {
            return Some(i);
        }
        i = i + 1;
    }
    if bytes_match_at(h, n, last) {
        Some(last)
    } else {
        assert(find_from(h@, n@, last + 1) is None);
        None
    }
}

/// What stripping the wake word does to a transcript `t`, given its
/// lowercase form and the lowercase wake phrase: when the phrase first occurs
/// (by byte offset in the lowercase text) with only whitespace before it in
/// `t`, the text after it, without leading whitespace; `t` itself otherwise.
/// `None` where those byte offsets do not fall on character boundaries of `t`.
pub open spec fn stripped_transcript(t: Seq<char>, lower: Seq<char>, lower_phrase: Seq<char>) -> Option<
    Seq<char>,
> {
    let tb = encode_utf8(t);
    let pb = encode_utf8(lower_phrase);
    match find_from(encode_utf8(lower), pb, 0) {
        None => Some(t),
        Some(idx) => if !(idx <= tb.len() && is_char_boundary(tb, idx)) {
            None
        } else if trim(decode_utf8(tb.subrange(0, idx))).len() == 0 {
            let end = idx + pb.len();
            if !(end <= tb.len() && is_char_boundary(tb, end)) {
                None
            } else {
                Some(trim_start(decode_utf8(tb.subrange(end, tb.len() as int))))
            }
        } else {
            Some(t)
        },
    }
}

/// Strip a leading wake-word phrase from a transcript, given the lowercase
/// forms of the transcript and the phrase (see [`stripped_transcript`]).
pub fn strip_wake_phrase(text: &str, lower_text: &str, lower_phrase: &str) -> (r: String)
    requires
        stripped_transcript(text@, lower_text@, lower_phrase@) is Some,
    ensures
        Some(r@) == stripped_transcript(text@, lower_text@, lower_phrase@),
{
    let ghost tb = encode_utf8(text@);
    let ghost pb = encode_utf8(lower_phrase@);
    match find_bytes(lower_text.as_bytes(), lower_phrase.as_bytes()) {
        None => text.to_owned(),
        Some(idx) => {
            let (prefix, _) = text.split_at(idx);
            proof {
                vstd::utf8::encode_utf8_decode_utf8(prefix@);
                assert(prefix@ == decode_utf8(tb.subrange(0, idx as int)));
            }
            let pv = chars_of(prefix);
            let (s0, e0) = trim_bounds(pv.as_slice(), 0);
            assert(pv@.subrange(0, pv@.len() as int) =~= pv@);
            if s0 == e0 {
                assert(trim(decode_utf8(tb.subrange(0, idx as int))).len() == 0);
                assert(idx + pb.len() <= tb.len());
                let plen = lower_phrase.as_bytes().len();
                let tl = text.as_bytes().len();
                assert(idx + plen <= tl);
                let end = idx + plen;
                let (_, rest) = text.split_at(end);
                proof {
                    vstd::utf8::encode_utf8_decode_utf8(rest@);
                    assert(rest@ == decode_utf8(tb.subrange(end as int, tb.len() as int)));
                }
                let rv = chars_of(rest);
                let start = trim_start_bound(rv.as_slice(), 0);
                assert(rv@.subrange(0, rv@.len() as int) =~= rv@);
                string_of(rv.as_slice(), start, rv.len())
            } else {
                text.to_owned()
            }
        },
    }
}

/// Strip a leading wake-word phrase (e.g. "hey jarvis" for the model
/// `hey_jarvis`) from a transcript, case-insensitively. The STT pre-roll
/// feeds the wake word into STT, so the first utterance may begin with it.
/// Where the match's byte offsets do not fall on character boundaries of the
/// transcript, it is returned unchanged.
pub fn strip_wake_word(text: &str, wake_word_model: &str) -> (r: String)
    ensures
        ({
            let s = stripped_transcript(
                text@,
                lowercase(text@),
                lowercase(model_phrase(wake_word_model@)),
            );
            &&& s matches Some(x) ==> r@ == x
            &&& s is None ==> r@ == text@
        }),
{
    let phrase = phrase_of_model(wake_word_model);
    let lower = to_lowercase(text);
    let lower_phrase = to_lowercase(phrase.as_str());
    let lb = lower.as_str().as_bytes();
    let pb = lower_phrase.as_str().as_bytes();
    let tlen = text.as_bytes().len();
    let ghost tb = encode_utf8(text@);
    match find_bytes(lb, pb) {
        Some(idx) => {
            if idx > tlen || !text.is_char_boundary(idx) {
                return text.to_owned();
            }
            let (prefix, _) = text.split_at(idx);
            proof {
                vstd::utf8::encode_utf8_decode_utf8(prefix@);
                assert(prefix@ == decode_utf8(tb.subrange(0, idx as int)));
            }
            let pv = chars_of(prefix);
            let (s0, e0) = trim_bounds(pv.as_slice(), 0);
            assert(pv@.subrange(0, pv@.len() as int) =~= pv@);
            if s0 == e0 {
                if pb.len() > tlen - idx || !text.is_char_boundary(idx + pb.len()) {
                    return text.to_owned();
                }
            }
        },
        None => {},
    }
    strip_wake_phrase(text, lower.as_str(), lower_phrase.as_str())
}

/// An outcome the client's runtime reports to the conversation loop.
#[derive(Debug)]
pub enum ConversationEvent {
    /// The wake-word detector heard the wake word.
    WakeWord,
    /// The wake-word detector stopped (or could not start).
    WakeWordStopped,
    /// STT completed an utterance (the transcript).
    Transcript(String),
    /// STT reported speech in progress.
    SpeechActivity,
    /// No utterance completed before the deadline (or STT died).
    ListenTimedOut,
    /// The transport is not connected.
    NotConnected,
    /// Sending the utterance or receiving the reply failed.
    ReplyFailed,
    /// The reply audio arrived.
    ReplyReceived,
    /// The reply could not be played.
    PlaybackFailed,
    /// The barge-in listener could not start; the reply was played through.
    BargeInListenerFailed,
    /// The reply finished playing.
    PlaybackFinished,
    /// The wake word was heard during playback; playback was stopped.
    BargeIn,
}

/// What the client's runtime does next.
#[derive(Debug)]
pub enum ConversationCommand {
    /// Start the wake-word detector and wait for a detection.
    ListenForWakeWord,
    /// Open the STT feed gate (draining the pre-roll first when asked) and
    /// wait for an utterance until `timeout_secs` of silence.
    ListenForUtterance { pre_roll: bool, timeout_secs: u64 },
    /// Speech is in progress: push the listening deadline to `timeout_secs`
    /// from now.
    ExtendDeadline { timeout_secs: u64 },
    /// Close the STT feed gate, send the utterance and receive the reply.
    SendUtterance(String),
    /// Play the reply while listening for a barge-in.
    PlayReply,
    /// End the loop.
    Exit,
}

/// What the loop is doing.
#[derive(Debug, Clone, Copy, PartialEq, Eq, Structural)]
pub enum LoopPhase {
    /// Waiting for the wake word.
    Cold,
    /// Waiting for an utterance.
    Listening,
    /// Waiting for the reply.
    Sending,
    /// Playing the reply.
    Playing,
    /// The loop has ended.
    Exited,
}

/// Whether `e` is an outcome of the command the loop issued in `phase`.
pub open spec fn expects(phase: LoopPhase, e: ConversationEvent) -> bool {
    match phase {
        LoopPhase::Cold => e is WakeWord || e is WakeWordStopped,
        LoopPhase::Listening => e is Transcript || e is SpeechActivity || e is ListenTimedOut,
        LoopPhase::Sending => e is NotConnected || e is ReplyFailed || e is ReplyReceived,
        LoopPhase::Playing => e is PlaybackFailed || e is BargeInListenerFailed
            || e is PlaybackFinished || e is BargeIn,
        LoopPhase::Exited => false,
    }
}

/// The view of a command.
pub enum CommandView {
    ListenForWakeWord,
    ListenForUtterance { pre_roll: bool, timeout_secs: u64 },
    ExtendDeadline { timeout_secs: u64 },
    SendUtterance(Seq<char>),
    PlayReply,
    Exit,
}

impl View for ConversationCommand {
    type V = CommandView;

    open spec fn view(&self) -> CommandView {
        match self {
            ConversationCommand::ListenForWakeWord => CommandView::ListenForWakeWord,
            ConversationCommand::ListenForUtterance { pre_roll, timeout_secs } =>
                CommandView::ListenForUtterance { pre_roll: *pre_roll, timeout_secs: *timeout_secs },
            ConversationCommand::ExtendDeadline { timeout_secs } => CommandView::ExtendDeadline {
                timeout_secs: *timeout_secs,
            },
            ConversationCommand::SendUtterance(t) => CommandView::SendUtterance(t@),
            ConversationCommand::PlayReply => CommandView::PlayReply,
            ConversationCommand::Exit => CommandView::Exit,
        }
    }
}

/// The state of the loop: its phase, the timeout of the current listen, and
/// its settings.
pub struct LoopView {
    pub phase: LoopPhase,
    pub timeout_secs: u64,
    pub silence_timeout_secs: u64,
    pub inactivity_timeout_secs: u64,
    pub wake_word_model: Seq<char>,
}

/// A listen for the next utterance of a warm conversation: no pre-roll, the
/// inactivity timeout.
pub open spec fn warm_listen(v: LoopView) -> (LoopView, Option<Transition>, CommandView) {
    (
        LoopView { phase: LoopPhase::Listening, timeout_secs: v.inactivity_timeout_secs, ..v },
        None,
        CommandView::ListenForUtterance { pre_roll: false, timeout_secs: v.inactivity_timeout_secs },
    )
}

/// One step of the loop: the state after `e`, the presence transition to
/// apply, and the next command. The transcript's view is `transcript`, and
/// `stripped` is the transcript with the wake phrase stripped.
pub open spec fn conversation_step(v: LoopView, e: ConversationEvent, stripped: Seq<char>) -> (
    LoopView,
    Option<Transition>,
    CommandView,
) {
    let cold = LoopView { phase: LoopPhase::Cold, ..v };
    match e {
        ConversationEvent::WakeWord => (
            LoopView { phase: LoopPhase::Listening, timeout_secs: v.silence_timeout_secs, ..v },
            Some(Transition::WakeWord),
            CommandView::ListenForUtterance { pre_roll: true, timeout_secs: v.silence_timeout_secs },
        ),
        ConversationEvent::WakeWordStopped => (
            LoopView { phase: LoopPhase::Exited, ..v },
            None,
            CommandView::Exit,
        ),
        ConversationEvent::Transcript(_) => (
            LoopView { phase: LoopPhase::Sending, ..v },
            Some(Transition::UtteranceComplete),
            CommandView::SendUtterance(stripped),
        ),
        ConversationEvent::SpeechActivity => (
            v,
            None,
            CommandView::ExtendDeadline { timeout_secs: v.timeout_secs },
        ),
        ConversationEvent::ListenTimedOut => (
            cold,
            Some(Transition::InactivityTimeout),
            CommandView::ListenForWakeWord,
        ),
        ConversationEvent::NotConnected => (
            cold,
            Some(Transition::Cancel),
            CommandView::ListenForWakeWord,
        ),
        ConversationEvent::ReplyFailed => (
            cold,
            Some(Transition::Cancel),
            CommandView::ListenForWakeWord,
        ),
        ConversationEvent::ReplyReceived => (
            LoopView { phase: LoopPhase::Playing, ..v },
            Some(Transition::ResponseStarted),
            CommandView::PlayReply,
        ),
        ConversationEvent::BargeIn => {
            let w = warm_listen(v);
            (w.0, Some(Transition::BargeIn), w.2)
        },
        _ => {
            let w = warm_listen(v);
            (w.0, Some(Transition::ResponseComplete), w.2)
        },
    }
}

/// The utterance the loop sends for an event: for a transcript, the text
/// with the wake phrase stripped (or the transcript itself where stripping
/// does not apply); nothing for other events.
pub open spec fn sent_text(v: LoopView, e: ConversationEvent) -> Seq<char> {
    match e {
        ConversationEvent::Transcript(t) => {
            let x = stripped_transcript(t@, lowercase(t@), lowercase(model_phrase(v.wake_word_model)));
            if x is Some {
                x->0
            } else {
                t@
            }
        },
        _ => Seq::empty(),
    }
}

/// The conversation loop's decisions.
pub struct ConversationLoop {
    phase: LoopPhase,
    timeout_secs: u64,
    silence_timeout_secs: u64,
    inactivity_timeout_secs: u64,
    wake_word_model: String,
}

/// One decision: the presence transition to apply (if any) and the next
/// command.
#[derive(Debug)]
pub struct ConversationStep {
    pub transition: Option<Transition>,
    pub command: ConversationCommand,
}

impl View for ConversationLoop {
    type V = LoopView;

    closed spec fn view(&self) -> LoopView {
        LoopView {
            phase: self.phase,
            timeout_secs: self.timeout_secs,
            silence_timeout_secs: self.silence_timeout_secs,
            inactivity_timeout_secs: self.inactivity_timeout_secs,
            wake_word_model: self.wake_word_model@,
        }
    }
}

impl ConversationLoop {
    /// A loop waiting for the wake word; its first command is to listen for
    /// it.
    pub fn new(config: &ConversationConfig, wake_word_model: &str) -> (r: (
        ConversationLoop,
        ConversationCommand,
    ))
        ensures
            r.0@ == (LoopView {
                phase: LoopPhase::Cold,
                timeout_secs: config.silence_timeout_secs,
                silence_timeout_secs: config.silence_timeout_secs,
                inactivity_timeout_secs: config.inactivity_timeout_secs,
                wake_word_model: wake_word_model@,
            }),
            r.1@ == CommandView::ListenForWakeWord,
    {
        (
            ConversationLoop {
                phase: LoopPhase::Cold,
                timeout_secs: config.silence_timeout_secs,
                silence_timeout_secs: config.silence_timeout_secs,
                inactivity_timeout_secs: config.inactivity_timeout_secs,
                wake_word_model: wake_word_model.to_owned(),
            },
            ConversationCommand::ListenForWakeWord,
        )
    }

    /// Whether `e` is an outcome of the command the loop issued last (see
    /// [`expects`]): only such an event may be fed to [`Self::on_event`].
    pub fn expects_event(&self, e: &ConversationEvent) -> (b: bool)
        ensures
            b == expects(self@.phase, *e),
    {
        match self.phase {
            LoopPhase::Cold => matches!(e, ConversationEvent::WakeWord | ConversationEvent::WakeWordStopped),
            LoopPhase::Listening => matches!(
                e,
                ConversationEvent::Transcript(_) | ConversationEvent::SpeechActivity
                    | ConversationEvent::ListenTimedOut
            ),
            LoopPhase::Sending => matches!(
                e,
                ConversationEvent::NotConnected | ConversationEvent::ReplyFailed
                    | ConversationEvent::ReplyReceived
            ),
            LoopPhase::Playing => matches!(
                e,
                ConversationEvent::PlaybackFailed | ConversationEvent::BargeInListenerFailed
                    | ConversationEvent::PlaybackFinished | ConversationEvent::BargeIn
            ),
            LoopPhase::Exited => false,
        }
    }

    /// What the loop is doing.
    pub fn phase(&self) -> (p: LoopPhase)
        ensures
            p == self@.phase,
    {
        self.phase
    }

    /// Feed the outcome of the last command; the loop answers with the
    /// presence transition to apply and the next command. A transcript is
    /// sent with the wake phrase stripped (see [`strip_wake_word`]).
    pub fn on_event(&mut self, e: ConversationEvent) -> (s: ConversationStep)
        requires
            expects(old(self)@.phase, e),
        ensures
            (final(self)@, s.transition, s.command@) == conversation_step(
                old(self)@,
                e,
                sent_text(old(self)@, e),
            ),
    {
        match e {
            ConversationEvent::WakeWord => {
                self.phase = LoopPhase::Listening;
                self.timeout_secs = self.silence_timeout_secs;
                ConversationStep {
                    transition: Some(Transition::WakeWord),
                    command: ConversationCommand::ListenForUtterance {
                        pre_roll: true,
                        timeout_secs: self.silence_timeout_secs,
                    },
                }
            },
            ConversationEvent::WakeWordStopped => {
                self.phase = LoopPhase::Exited;
                ConversationStep { transition: None, command: ConversationCommand::Exit }
            },
            ConversationEvent::Transcript(t) => {
                let text = strip_wake_word(t.as_str(), self.wake_word_model.as_str());
                self.phase = LoopPhase::Sending;
                ConversationStep {
                    transition: Some(Transition::UtteranceComplete),
                    command: ConversationCommand::SendUtterance(text),
                }
            },
            ConversationEvent::SpeechActivity => ConversationStep {
                transition: None,
                command: ConversationCommand::ExtendDeadline { timeout_secs: self.timeout_secs },
            },
            ConversationEvent::ListenTimedOut => {
                self.phase = LoopPhase::Cold;
                ConversationStep {
                    transition: Some(Transition::InactivityTimeout),
                    command: ConversationCommand::ListenForWakeWord,
                }
            },
            ConversationEvent::NotConnected | ConversationEvent::ReplyFailed => {
                self.phase = LoopPhase::Cold;
                ConversationStep {
                    transition: Some(Transition::Cancel),
                    command: ConversationCommand::ListenForWakeWord,
                }
            },
            ConversationEvent::ReplyReceived => {
                self.phase = LoopPhase::Playing;
                ConversationStep {
                    transition: Some(Transition::ResponseStarted),
                    command: ConversationCommand::PlayReply,
                }
            },
            ConversationEvent::BargeIn => {
                self.phase = LoopPhase::Listening;
                self.timeout_secs = self.inactivity_timeout_secs;
                ConversationStep {
                    transition: Some(Transition::BargeIn),
                    command: ConversationCommand::ListenForUtterance {
                        pre_roll: false,
                        timeout_secs: self.inactivity_timeout_secs,
                    },
                }
            },
            _ => {
                self.phase = LoopPhase::Listening;
                self.timeout_secs = self.inactivity_timeout_secs;
                ConversationStep {
                    transition: Some(Transition::ResponseComplete),
                    command: ConversationCommand::ListenForUtterance {
                        pre_roll: false,
                        timeout_secs: self.inactivity_timeout_secs,
                    },
                }
            },
        }
    }
}

/// The presence state that goes with each phase of the loop: cold and idle
/// while waiting for the wake word, then listening, thinking and speaking in
/// a warm conversation.
pub open spec fn in_step(phase: LoopPhase, s: ClientState) -> bool {
    match phase {
        LoopPhase::Cold => s.state == State::Idle && !s.conversation_active,
        LoopPhase::Listening => s.state == State::Listening && s.conversation_active,
        LoopPhase::Sending => s.state == State::Thinking && s.conversation_active,
        LoopPhase::Playing => s.state == State::Speaking && s.conversation_active,
        LoopPhase::Exited => true,
    }
}

/// The presence after the transition of a step, if any.
pub open spec fn after_step(s: ClientState, t: Option<Transition>) -> ClientState {
    match t {
        Some(t) => after(s, t),
        None => s,
    }
}

/// The loop and the presence state machine stay in step: when the presence
/// matches the loop's phase and the client is not muted, the transition the
/// loop applies for any expected outcome takes the presence to the state of
/// the loop's next phase. Muting, in turn, never moves the presence out of
/// step.
pub proof fn loop_and_presence_stay_in_step(
    v: LoopView,
    e: ConversationEvent,
    stripped: Seq<char>,
    s: ClientState,
)
    requires
        expects(v.phase, e),
        in_step(v.phase, s),
        !s.muted,
    ensures
        ({
            let step = conversation_step(v, e, stripped);
            in_step(step.0.phase, after_step(s, step.1))
        }),
        forall|m: bool| #[trigger] in_step(v.phase, after(s, Transition::SetMute(m))),
        in_step(v.phase, after(s, Transition::ToggleMute)),
{
}

/// The loop's state and the presence transitions it applies after `events`,
/// one step at a time.
pub open spec fn run_steps(v: LoopView, events: Seq<ConversationEvent>) -> (LoopView, Seq<Transition>)
    decreases events.len(),
{
    if events.len() == 0 {
        (v, Seq::empty())
    } else {
        let step = conversation_step(v, events[0], sent_text(v, events[0]));
        let rest = run_steps(step.0, events.drop_first());
        (
            rest.0,
            match step.1 {
                Some(t) => seq![t] + rest.1,
                None => rest.1,
            },
        )
    }
}

/// `k` reports of speech in progress.
pub open spec fn speech_activity(k: nat) -> Seq<ConversationEvent> {
    Seq::new(k, |i: int| ConversationEvent::SpeechActivity)
}

/// The ways a sent utterance can end: not connected or a failed exchange
/// (one event), or a reply that is played through, fails to play, or is
/// barged in on (the reply, then how playback ends).
pub open spec fn is_reply_outcome(reply: Seq<ConversationEvent>) -> bool {
    ||| reply.len() == 1 && (reply[0] is NotConnected || reply[0] is ReplyFailed)
    ||| reply.len() == 2 && reply[0] is ReplyReceived && (reply[1] is BargeIn
        || reply[1] is PlaybackFinished || reply[1] is PlaybackFailed
        || reply[1] is BargeInListenerFailed)
}

/// Speech in progress changes nothing but the deadline.
proof fn lemma_speech_activity_is_transparent(v: LoopView, k: nat, rest: Seq<ConversationEvent>)
    requires
        v.phase == LoopPhase::Listening,
    ensures
        run_steps(v, speech_activity(k) + rest) == run_steps(v, rest),
    decreases k,
{
    if k > 0 {
        let events = speech_activity(k) + rest;
        assert(events[0] is SpeechActivity);
        assert(events.drop_first() =~= speech_activity((k - 1) as nat) + rest);
        lemma_speech_activity_is_transparent(v, (k - 1) as nat, rest);
    } else {
        assert(speech_activity(k) + rest =~= rest);
    }
}

/// Speech in progress extends the deadline by the timeout of the listen it
/// belongs to: when a step starts a listen with timeout `T` (the silence
/// timeout after the wake word, the inactivity timeout after a reply or a
/// barge-in), every report of speech that follows asks for a deadline `T`
/// from now and leaves the loop as it was.
pub proof fn speech_extends_the_listen_in_progress(
    v: LoopView,
    e: ConversationEvent,
    stripped: Seq<char>,
    k: nat,
    x: Seq<char>,
)
    requires
        conversation_step(v, e, stripped).2 is ListenForUtterance,
    ensures
        ({
            let started = conversation_step(v, e, stripped);
            let timeout = started.2->ListenForUtterance_timeout_secs;
            &&& e is WakeWord ==> timeout == v.silence_timeout_secs
            &&& !(e is WakeWord) ==> timeout == v.inactivity_timeout_secs
            &&& conversation_step(started.0, ConversationEvent::SpeechActivity, x).2
                == CommandView::ExtendDeadline { timeout_secs: timeout }
            &&& conversation_step(started.0, ConversationEvent::SpeechActivity, x).0 == started.0
            &&& run_steps(started.0, speech_activity(k)) == (started.0, Seq::<Transition>::empty())
        }),
{
    let started = conversation_step(v, e, stripped);
    lemma_speech_activity_is_transparent(started.0, k, Seq::empty());
    assert(speech_activity(k) + Seq::<ConversationEvent>::empty() =~= speech_activity(k));
}

/// One warm turn, from the moment the loop listens for an utterance: while
/// speech is in progress nothing changes; if no utterance completes before
/// the deadline the warm session ends (inactivity timeout, back to cold and
/// idle); otherwise the utterance (wake phrase stripped) is sent and the
/// presence goes to thinking, and then either the turn is cancelled (not
/// connected, or the exchange failed: cold and idle) or the reply starts
/// speaking and ends by barge-in or by completion, both of which hand the
/// floor back to the user (listening, warm, with the inactivity timeout).
pub proof fn warm_turn(v: LoopView, k: nat, t: String, reply: Seq<ConversationEvent>, s: ClientState)
    requires
        v.phase == LoopPhase::Listening,
        s.state == State::Listening,
        s.conversation_active,
        is_reply_outcome(reply),
    ensures
        run_steps(v, speech_activity(k).push(ConversationEvent::ListenTimedOut)) == (
            LoopView { phase: LoopPhase::Cold, ..v },
            seq![Transition::InactivityTimeout],
        ),
        run(s, seq![Transition::InactivityTimeout]).state == State::Idle,
        !run(s, seq![Transition::InactivityTimeout]).conversation_active,
        conversation_step(
            v,
            ConversationEvent::Transcript(t),
            sent_text(v, ConversationEvent::Transcript(t)),
        ).2 == CommandView::SendUtterance(sent_text(v, ConversationEvent::Transcript(t))),
        ({
            let r = run_steps(v, speech_activity(k) + seq![ConversationEvent::Transcript(t)] + reply);
            &&& r.1 == seq![Transition::UtteranceComplete] + (if reply.len() == 1 {
                seq![Transition::Cancel]
            } else if reply[1] is BargeIn {
                seq![Transition::ResponseStarted, Transition::BargeIn]
            } else {
                seq![Transition::ResponseStarted, Transition::ResponseComplete]
            })
            &&& reply.len() == 1 ==> r.0.phase == LoopPhase::Cold && run(s, r.1).state == State::Idle
                && !run(s, r.1).conversation_active
            &&& reply.len() == 2 ==> r.0.phase == LoopPhase::Listening && r.0.timeout_secs
                == v.inactivity_timeout_secs && run(s, r.1).state == State::Listening && run(
                s,
                r.1,
            ).conversation_active
        }),
{
    let cold = LoopView { phase: LoopPhase::Cold, ..v };
    let none_left = Seq::<ConversationEvent>::empty();
    let timed_out = seq![ConversationEvent::ListenTimedOut];
    assert(speech_activity(k).push(ConversationEvent::ListenTimedOut) =~= speech_activity(k)
        + timed_out);
    lemma_speech_activity_is_transparent(v, k, timed_out);
    assert(timed_out.drop_first() =~= none_left);
    assert(run_steps(cold, none_left) == (cold, Seq::<Transition>::empty()));
    assert(seq![Transition::InactivityTimeout] + Seq::<Transition>::empty() =~= seq![
        Transition::InactivityTimeout,
    ]);
    assert(run_steps(v, timed_out) == (cold, seq![Transition::InactivityTimeout]));
    assert(seq![Transition::InactivityTimeout].drop_first() =~= Seq::<Transition>::empty());
    assert(seq![Transition::InactivityTimeout][0] == Transition::InactivityTimeout);
    assert(run(after(s, Transition::InactivityTimeout), Seq::<Transition>::empty()) == after(
        s,
        Transition::InactivityTimeout,
    ));
    assert(run(s, seq![Transition::InactivityTimeout]) == after(s, Transition::InactivityTimeout));

    let spoken = seq![ConversationEvent::Transcript(t)] + reply;
    assert(speech_activity(k) + seq![ConversationEvent::Transcript(t)] + reply =~= speech_activity(k)
        + spoken);
    lemma_speech_activity_is_transparent(v, k, spoken);
    assert(spoken[0] == ConversationEvent::Transcript(t));
    assert(spoken.drop_first() =~= reply);
    let sending = LoopView { phase: LoopPhase::Sending, ..v };
    let thinking = after(s, Transition::UtteranceComplete);
    let r = run_steps(v, speech_activity(k) + seq![ConversationEvent::Transcript(t)] + reply);
    assert(r == run_steps(v, spoken));
    let rr = run_steps(sending, reply);
    assert(run_steps(v, spoken) == (rr.0, seq![Transition::UtteranceComplete] + rr.1));
    if reply.len() == 2 {
        let playing = LoopView { phase: LoopPhase::Playing, ..v };
        let last = seq![reply[1]];
        assert(reply.drop_first() =~= last);
        assert(last.drop_first() =~= none_left);
        let listening = LoopView {
            phase: LoopPhase::Listening,
            timeout_secs: v.inactivity_timeout_secs,
            ..v
        };
        let ending = if reply[1] is BargeIn {
            Transition::BargeIn
        } else {
            Transition::ResponseComplete
        };
        assert(run_steps(listening, none_left) == (listening, Seq::<Transition>::empty()));
        assert(seq![ending] + Seq::<Transition>::empty() =~= seq![ending]);
        assert(run_steps(playing, last) == (listening, seq![ending]));
        assert(rr == (listening, seq![Transition::ResponseStarted] + seq![ending]));
        let tail = seq![Transition::ResponseStarted, ending];
        assert(seq![Transition::ResponseStarted] + seq![ending] =~= tail);
        let ts = r.1;
        assert(ts =~= seq![Transition::UtteranceComplete] + tail);
        assert(ts.drop_first() =~= tail);
        assert(tail.drop_first() =~= seq![ending]);
        assert(seq![ending].drop_first() =~= Seq::<Transition>::empty());
        assert(run(s, ts) == run(thinking, tail));
        assert(tail[0] == Transition::ResponseStarted);
        assert(ts[0] == Transition::UtteranceComplete);
        assert(run(thinking, tail) == run(after(thinking, Transition::ResponseStarted), seq![ending]));
        let speaking = after(thinking, Transition::ResponseStarted);
        assert(seq![ending][0] == ending);
        assert(run(after(speaking, ending), Seq::<Transition>::empty()) == after(speaking, ending));
        assert(run(speaking, seq![ending]) == after(speaking, ending));
        assert(r.0 == listening);
    } else {
        assert(reply.drop_first() =~= none_left);
        assert(run_steps(cold, none_left) == (cold, Seq::<Transition>::empty()));
        assert(seq![Transition::Cancel] + Seq::<Transition>::empty() =~= seq![Transition::Cancel]);
        assert(rr == (cold, seq![Transition::Cancel]));
        let ts = r.1;
        assert(ts =~= seq![Transition::UtteranceComplete, Transition::Cancel]);
        assert(ts.drop_first() =~= seq![Transition::Cancel]);
        assert(seq![Transition::Cancel].drop_first() =~= Seq::<Transition>::empty());
        assert(ts[0] == Transition::UtteranceComplete);
        assert(seq![Transition::Cancel][0] == Transition::Cancel);
        assert(run(s, ts) == run(thinking, seq![Transition::Cancel]));
        assert(run(after(thinking, Transition::Cancel), Seq::<Transition>::empty()) == after(
            thinking,
            Transition::Cancel,
        ));
        assert(run(thinking, seq![Transition::Cancel]) == after(thinking, Transition::Cancel));
        assert(r.0 == cold);
    }
}

/// Every way a listen or a reply can fail without a reply being played ends
/// the warm session: the transition the loop applies takes a listening or
/// thinking client back to idle and cold, whatever its mute flag.
pub proof fn failed_turns_end_cold(v: LoopView, e: ConversationEvent, s: ClientState)
    requires
        e is ListenTimedOut || e is NotConnected || e is ReplyFailed,
        s.state == State::Listening || (s.state == State::Thinking && !(e is ListenTimedOut)),
    ensures
        conversation_step(v, e, Seq::empty()).1 matches Some(t) && after(s, t).state == State::Idle
            && !after(s, t).conversation_active && after(s, t).muted == s.muted,
        conversation_step(v, e, Seq::empty()).2 == CommandView::ListenForWakeWord,
{
}

} // verus!
