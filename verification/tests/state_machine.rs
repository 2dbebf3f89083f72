use prosopon::state_machine::{ClientState, State, StateMachine, Transition};

#[test]
fn starts_disconnected() {
    let m = StateMachine::new();
    assert_eq!(m.current().state, State::Disconnected);
    assert!(!m.current().muted);
    assert!(!m.current().conversation_active);
}

#[test]
fn full_happy_path_warm() {
    let mut m = StateMachine::new();
    assert!(m.apply(Transition::Connect).is_some());
    assert_eq!(m.current().state, State::Idle);

    assert!(m.apply(Transition::WakeWord).is_some());
    assert_eq!(m.current().state, State::Listening);
    assert!(m.current().conversation_active);

    assert!(m.apply(Transition::UtteranceComplete).is_some());
    assert_eq!(m.current().state, State::Thinking);

    assert!(m.apply(Transition::ResponseStarted).is_some());
    assert_eq!(m.current().state, State::Speaking);

    // Warm: response completes back into Listening, not Idle.
    assert!(m.apply(Transition::ResponseComplete).is_some());
    assert_eq!(m.current().state, State::Listening);
    assert!(m.current().conversation_active);

    // Second turn without a wake word.
    assert!(m.apply(Transition::UtteranceComplete).is_some());
    assert_eq!(m.current().state, State::Thinking);
    assert!(m.apply(Transition::ResponseStarted).is_some());
    assert!(m.apply(Transition::ResponseComplete).is_some());
    assert_eq!(m.current().state, State::Listening);

    // Inactivity gap ends the warm session.
    assert!(m.apply(Transition::InactivityTimeout).is_some());
    assert_eq!(m.current().state, State::Idle);
    assert!(!m.current().conversation_active);
}

#[test]
fn barge_in_interrupts_speech() {
    let mut m = StateMachine::new();
    m.apply(Transition::Connect);
    m.apply(Transition::WakeWord);
    m.apply(Transition::UtteranceComplete);
    m.apply(Transition::ResponseStarted);
    assert_eq!(m.current().state, State::Speaking);

    assert!(m.apply(Transition::BargeIn).is_some());
    assert_eq!(m.current().state, State::Listening);
    assert!(m.current().conversation_active);
}

#[test]
fn barge_in_illegal_when_cold() {
    let mut m = StateMachine::new();
    m.apply(Transition::Connect);
    assert!(m.apply(Transition::BargeIn).is_none());
}

#[test]
fn inactivity_timeout_ends_warm_session() {
    let mut m = StateMachine::new();
    m.apply(Transition::Connect);
    m.apply(Transition::WakeWord);
    assert_eq!(m.current().state, State::Listening);
    assert!(m.current().conversation_active);

    assert!(m.apply(Transition::InactivityTimeout).is_some());
    assert_eq!(m.current().state, State::Idle);
    assert!(!m.current().conversation_active);

    // After going cold, the wake word is required again.
    assert!(m.apply(Transition::WakeWord).is_some());
    assert_eq!(m.current().state, State::Listening);
}

#[test]
fn cancel_from_listening_returns_to_idle_and_cools() {
    let mut m = StateMachine::new();
    m.apply(Transition::Connect);
    m.apply(Transition::WakeWord);
    assert_eq!(m.current().state, State::Listening);
    assert!(m.apply(Transition::Cancel).is_some());
    assert_eq!(m.current().state, State::Idle);
    assert!(!m.current().conversation_active);
}

#[test]
fn cancel_from_thinking_returns_to_idle() {
    let mut m = StateMachine::new();
    m.apply(Transition::Connect);
    m.apply(Transition::WakeWord);
    m.apply(Transition::UtteranceComplete);
    assert_eq!(m.current().state, State::Thinking);
    assert!(m.apply(Transition::Cancel).is_some());
    assert_eq!(m.current().state, State::Idle);
}

#[test]
fn cancel_is_illegal_from_idle() {
    let mut m = StateMachine::new();
    m.apply(Transition::Connect);
    assert!(m.apply(Transition::Cancel).is_none());
}

#[test]
fn cannot_listen_while_muted() {
    let mut m = StateMachine::new();
    m.apply(Transition::Connect);
    m.apply(Transition::SetMute(true));
    assert!(m.apply(Transition::WakeWord).is_none());
    assert_eq!(m.current().state, State::Idle);
}

#[test]
fn illegal_transitions_are_noops() {
    let mut m = StateMachine::new();
    // Cannot wake word while disconnected.
    assert!(m.apply(Transition::WakeWord).is_none());
    // Cannot complete utterance while idle.
    assert!(m.apply(Transition::UtteranceComplete).is_none());
    // Cannot start response while idle.
    assert!(m.apply(Transition::ResponseStarted).is_none());
    // Cannot complete response while idle.
    assert!(m.apply(Transition::ResponseComplete).is_none());
    // Cannot barge in while idle.
    assert!(m.apply(Transition::BargeIn).is_none());
    // Cannot time out while idle.
    assert!(m.apply(Transition::InactivityTimeout).is_none());
}

#[test]
fn disconnect_resets_conversation() {
    let mut m = StateMachine::new();
    m.apply(Transition::Connect);
    m.apply(Transition::WakeWord);
    assert!(m.current().conversation_active);
    assert!(m.apply(Transition::Disconnect).is_some());
    assert_eq!(m.current().state, State::Disconnected);
    assert!(!m.current().conversation_active);
}

#[test]
fn apply_reports_the_new_state_only_on_change() {
    let mut m = StateMachine::new();
    let s = m.apply(Transition::Connect).expect("connect from disconnected");
    assert_eq!(s, m.current());
    assert!(m.apply(Transition::Connect).is_none());
    assert!(m.apply(Transition::SetMute(false)).is_none());
    let muted = m.apply(Transition::SetMute(true)).expect("mute changes the flag");
    assert!(muted.muted);
    assert_eq!(muted.state, State::Idle);
}

#[test]
fn toggle_mute_twice_restores_the_state() {
    let mut m = StateMachine::new();
    m.apply(Transition::Connect);
    let before = m.current();
    m.apply(Transition::ToggleMute);
    assert!(m.current().muted);
    m.apply(Transition::ToggleMute);
    assert_eq!(m.current(), before);
}

#[test]
fn mute_does_not_change_presence() {
    let mut m = StateMachine::new();
    m.apply(Transition::Connect);
    m.apply(Transition::WakeWord);
    let s = m.apply(Transition::ToggleMute).expect("toggle always applies");
    assert_eq!(s.state, State::Listening);
    assert!(s.conversation_active);
    // A muted warm conversation still proceeds.
    assert!(m.apply(Transition::UtteranceComplete).is_some());
}

#[test]
fn colors_and_motions() {
    assert_eq!(State::Disconnected.color(), "#4a4a55");
    assert_eq!(State::Idle.color(), "#5b8def");
    assert_eq!(State::Listening.color(), "#3b82f6");
    assert_eq!(State::Thinking.color(), "#f59e0b");
    assert_eq!(State::Speaking.color(), "#14b8a6");
    assert_eq!(State::Disconnected.motion(), "static");
    assert_eq!(State::Idle.motion(), "breathing");
    assert_eq!(State::Listening.motion(), "level");
    assert_eq!(State::Thinking.motion(), "pulsing");
    assert_eq!(State::Speaking.motion(), "level");
}

#[test]
fn default_client_state_is_disconnected_and_cold() {
    let s = ClientState::default();
    assert_eq!(s.state, State::Disconnected);
    assert!(!s.muted);
    assert!(!s.conversation_active);
    assert_eq!(StateMachine::default().current(), s);
}
