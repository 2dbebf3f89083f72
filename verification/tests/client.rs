use prosopon::bridge::{build_request_stream, chunk_samples_for, AudioStreamPart};
use prosopon::client::config::{ConversationConfig, SignalingConfig, SttConfig, WebrtcConfig};
use prosopon::client::conversation::{
    strip_wake_phrase, strip_wake_word, ConversationCommand, ConversationEvent, ConversationLoop,
    LoopPhase,
};
use prosopon::client::logs::{LogBuffer, LogEvent, MAX_LOGS};
use prosopon::client::signaling::authorization_header;
use prosopon::client::stt::{parse_sidecar_line, SttEvent};
use prosopon::client::wake_word::is_wake_line;
use prosopon::client::webrtc_client::{ChannelEvent, FramedReceiver, Progress, ReceiveError};
use prosopon::server::webrtc::{audio_header, chunk_payload};
use prosopon::state_machine::{State, StateMachine, Transition};

#[test]
fn client_defaults() {
    assert_eq!(SignalingConfig::default().url, "http://localhost:29435/offer");
    assert!(SignalingConfig::default().auth_token.is_empty());
    assert_eq!(WebrtcConfig::default().stun_servers, vec!["stun:stun.l.google.com:19302".to_string()]);
    assert_eq!(SttConfig::default().model_arch, "small-streaming");
    assert_eq!(SttConfig::default().language, "en");
    let c = ConversationConfig::default();
    assert!(!c.auto_start);
    assert_eq!(c.silence_timeout_secs, 15);
    assert_eq!(c.inactivity_timeout_secs, 5);
}

fn receive(events: Vec<ChannelEvent>) -> Vec<Progress> {
    let mut r = FramedReceiver::audio();
    let mut out = Vec::new();
    for e in events {
        if r.is_finished() {
            break;
        }
        out.push(r.on_event(e));
    }
    out
}

#[test]
fn receiver_reassembles_chunked_audio() {
    let audio: Vec<u8> = (0..40_000u32).map(|i| (i % 253) as u8).collect();
    let mut events = vec![ChannelEvent::Other, ChannelEvent::Text("hello".into())];
    events.push(ChannelEvent::Text(audio_header(audio.len())));
    events.extend(chunk_payload(&audio).into_iter().map(ChannelEvent::Binary));
    let progress = receive(events);
    let last = progress.last().expect("some progress");
    match last {
        Progress::Complete(bytes) => assert_eq!(bytes, &audio),
        other => panic!("unexpected {other:?}"),
    }
    assert!(progress[..progress.len() - 1].iter().all(|p| matches!(p, Progress::Pending)));
}

#[test]
fn receiver_handles_empty_payload_and_errors() {
    let p = receive(vec![ChannelEvent::Text("audio:0".into())]);
    assert!(matches!(p.as_slice(), [Progress::Complete(b)] if b.is_empty()));
    let p = receive(vec![ChannelEvent::Text("audio: 12 ".into()), ChannelEvent::Closed]);
    assert!(matches!(p.as_slice(), [Progress::Pending, Progress::Failed(ReceiveError::ChannelClosed)]));
    let p = receive(vec![ChannelEvent::Text("audio:12x".into())]);
    assert!(matches!(p.as_slice(), [Progress::Failed(ReceiveError::InvalidHeader(t))] if t == "audio:12x"));
    let p = receive(vec![ChannelEvent::Text("audio:+3".into()), ChannelEvent::Binary(vec![1, 2, 3, 4])]);
    assert!(matches!(p.as_slice(), [Progress::Pending, Progress::Complete(b)] if b == &vec![1, 2, 3, 4]));
    let p = receive(vec![ChannelEvent::Text("audio:99999999999999999999999".into())]);
    assert!(matches!(p.as_slice(), [Progress::Failed(ReceiveError::InvalidHeader(_))]));
    let p = receive(vec![ChannelEvent::Closed]);
    assert!(matches!(p.as_slice(), [Progress::Failed(ReceiveError::NotOpen)]));
    let p = receive(vec![ChannelEvent::Text("hello".into()), ChannelEvent::Other, ChannelEvent::Closed]);
    assert!(matches!(p.as_slice(), [Progress::Pending, Progress::Pending, Progress::Failed(ReceiveError::NotOpen)]));
}

#[test]
fn blendshapes_receiver_uses_its_prefix() {
    let mut r = FramedReceiver::blendshapes();
    assert!(matches!(r.on_event(ChannelEvent::Text("audio:3".into())), Progress::Pending));
    assert!(matches!(r.on_event(ChannelEvent::Text("blendshapes:2".into())), Progress::Pending));
    assert!(matches!(r.on_event(ChannelEvent::Binary(vec![7, 8])), Progress::Complete(b) if b == vec![7, 8]));
    // Avatar disabled: the channel closes before any header.
    let mut r = FramedReceiver::blendshapes();
    assert!(matches!(r.on_event(ChannelEvent::Closed), Progress::Failed(ReceiveError::NotOpen)));
}

#[test]
fn stt_sidecar_lines() {
    assert!(matches!(parse_sidecar_line("FINAL  hello world "), Some(SttEvent::Final(t)) if t == "hello world"));
    assert!(matches!(parse_sidecar_line("PARTIAL hel"), Some(SttEvent::Partial)));
    assert!(parse_sidecar_line("LOADING model").is_none());
    assert!(parse_sidecar_line("FINAL").is_none());
}

#[test]
fn wake_word_sidecar_lines() {
    assert!(is_wake_line("WAKE"));
    assert!(is_wake_line("  WAKE\r"));
    assert!(!is_wake_line("WAKEUP"));
    assert!(!is_wake_line("score 0.3"));
}

#[test]
fn wake_word_is_stripped_from_transcripts() {
    assert_eq!(strip_wake_word("Hey Jarvis, what time is it", "hey_jarvis"), ", what time is it");
    assert_eq!(strip_wake_word("  hey jarvis   what time", "hey_jarvis"), "what time");
    assert_eq!(strip_wake_word("what time, hey jarvis", "hey_jarvis"), "what time, hey jarvis");
    assert_eq!(strip_wake_word("no wake word", "hey_jarvis"), "no wake word");
    assert_eq!(strip_wake_phrase("HEY JARVIS go", "hey jarvis go", "hey jarvis"), "go");
}

#[test]
fn authorization_header_is_bearer() {
    assert_eq!(authorization_header(""), None);
    assert_eq!(authorization_header("tok"), Some("Bearer tok".to_string()));
}

fn config() -> ConversationConfig {
    ConversationConfig { auto_start: true, silence_timeout_secs: 15, inactivity_timeout_secs: 5 }
}

#[test]
fn conversation_loop_full_turn() {
    let (mut l, first) = ConversationLoop::new(&config(), "hey_jarvis");
    assert!(matches!(first, ConversationCommand::ListenForWakeWord));
    let s = l.on_event(ConversationEvent::WakeWord);
    assert_eq!(s.transition, Some(Transition::WakeWord));
    assert!(matches!(s.command, ConversationCommand::ListenForUtterance { pre_roll: true, timeout_secs: 15 }));
    let s = l.on_event(ConversationEvent::SpeechActivity);
    assert_eq!(s.transition, None);
    assert!(matches!(s.command, ConversationCommand::ExtendDeadline { timeout_secs: 15 }));
    let s = l.on_event(ConversationEvent::Transcript("hey jarvis tell me a joke".into()));
    assert_eq!(s.transition, Some(Transition::UtteranceComplete));
    assert!(matches!(s.command, ConversationCommand::SendUtterance(ref t) if t == "tell me a joke"));
    let s = l.on_event(ConversationEvent::ReplyReceived);
    assert_eq!(s.transition, Some(Transition::ResponseStarted));
    assert!(matches!(s.command, ConversationCommand::PlayReply));
    let s = l.on_event(ConversationEvent::PlaybackFinished);
    assert_eq!(s.transition, Some(Transition::ResponseComplete));
    assert!(matches!(s.command, ConversationCommand::ListenForUtterance { pre_roll: false, timeout_secs: 5 }));
    let s = l.on_event(ConversationEvent::ListenTimedOut);
    assert_eq!(s.transition, Some(Transition::InactivityTimeout));
    assert!(matches!(s.command, ConversationCommand::ListenForWakeWord));
    assert_eq!(l.phase(), LoopPhase::Cold);
    let s = l.on_event(ConversationEvent::WakeWordStopped);
    assert!(matches!(s.command, ConversationCommand::Exit));
    assert_eq!(l.phase(), LoopPhase::Exited);
}

#[test]
fn conversation_loop_barge_in_and_failures() {
    let (mut l, _) = ConversationLoop::new(&config(), "hey_jarvis");
    l.on_event(ConversationEvent::WakeWord);
    l.on_event(ConversationEvent::Transcript("hi".into()));
    l.on_event(ConversationEvent::ReplyReceived);
    let s = l.on_event(ConversationEvent::BargeIn);
    assert_eq!(s.transition, Some(Transition::BargeIn));
    assert!(matches!(s.command, ConversationCommand::ListenForUtterance { pre_roll: false, timeout_secs: 5 }));
    l.on_event(ConversationEvent::Transcript("again".into()));
    let s = l.on_event(ConversationEvent::ReplyFailed);
    assert_eq!(s.transition, Some(Transition::Cancel));
    assert!(matches!(s.command, ConversationCommand::ListenForWakeWord));
    l.on_event(ConversationEvent::WakeWord);
    l.on_event(ConversationEvent::Transcript("x".into()));
    let s = l.on_event(ConversationEvent::NotConnected);
    assert_eq!(s.transition, Some(Transition::Cancel));
    l.on_event(ConversationEvent::WakeWord);
    l.on_event(ConversationEvent::Transcript("y".into()));
    l.on_event(ConversationEvent::ReplyReceived);
    let s = l.on_event(ConversationEvent::PlaybackFailed);
    assert_eq!(s.transition, Some(Transition::ResponseComplete));
}

#[test]
fn log_buffer_keeps_the_newest() {
    let mut b = LogBuffer::new();
    for i in 0..(MAX_LOGS + 7) {
        b.push(LogEvent { level: "info".into(), source: "t".into(), message: i.to_string() });
    }
    assert_eq!(b.len(), MAX_LOGS);
    let entries = b.entries();
    assert_eq!(entries[0].message, "7");
    assert_eq!(entries[MAX_LOGS - 1].message, (MAX_LOGS + 6).to_string());
}

#[test]
fn bridge_request_stream() {
    assert_eq!(chunk_samples_for(16_000), 1_600);
    let samples: Vec<i16> = vec![1, -1, 256, -32768, 32767];
    let parts = build_request_stream(&samples, 16_000, 2);
    assert_eq!(parts.len(), 5);
    assert!(matches!(&parts[0], AudioStreamPart::Header(h) if h.samples_per_second == 16_000 && h.channel_count == 1 && h.bits_per_sample == 16));
    let mut bytes = Vec::new();
    for p in &parts[1..4] {
        match p {
            AudioStreamPart::Audio(b) => bytes.extend_from_slice(b),
            other => panic!("unexpected {other:?}"),
        }
    }
    let expected: Vec<u8> = samples.iter().flat_map(|s| s.to_le_bytes()).collect();
    assert_eq!(bytes, expected);
    assert!(matches!(parts[4], AudioStreamPart::EndOfAudio));
    let empty = build_request_stream(&[], 8_000, 800);
    assert_eq!(empty.len(), 2);
}

#[test]
fn conversation_loop_stays_in_step_with_presence() {
    let mut m = StateMachine::new();
    m.apply(Transition::Connect);
    let (mut l, _) = ConversationLoop::new(&config(), "hey_jarvis");
    let events = vec![
        (ConversationEvent::WakeWord, State::Listening),
        (ConversationEvent::SpeechActivity, State::Listening),
        (ConversationEvent::Transcript("hey jarvis hi".into()), State::Thinking),
        (ConversationEvent::ReplyReceived, State::Speaking),
        (ConversationEvent::BargeIn, State::Listening),
        (ConversationEvent::Transcript("more".into()), State::Thinking),
        (ConversationEvent::ReplyReceived, State::Speaking),
        (ConversationEvent::PlaybackFinished, State::Listening),
        (ConversationEvent::ListenTimedOut, State::Idle),
        (ConversationEvent::WakeWord, State::Listening),
        (ConversationEvent::Transcript("x".into()), State::Thinking),
        (ConversationEvent::ReplyFailed, State::Idle),
    ];
    for (e, expected) in events {
        let step = l.on_event(e);
        if let Some(t) = step.transition {
            m.apply(t);
        }
        assert_eq!(m.current().state, expected);
        assert_eq!(m.current().conversation_active, expected != State::Idle);
        if matches!(l.phase(), LoopPhase::Listening) {
            // Muting never moves the presence out of step.
            m.apply(Transition::ToggleMute);
            m.apply(Transition::ToggleMute);
            assert_eq!(m.current().state, State::Listening);
        }
    }
    assert_eq!(l.phase(), LoopPhase::Cold);
}

#[test]
fn server_framing_is_received_whole() {
    for len in [0usize, 1, 16_384, 16_385, 50_000] {
        let data: Vec<u8> = (0..len).map(|i| (i * 7 % 256) as u8).collect();
        let mut events = vec![ChannelEvent::Text(audio_header(data.len()))];
        events.extend(chunk_payload(&data).into_iter().map(ChannelEvent::Binary));
        let progress = receive(events);
        assert!(matches!(progress.last(), Some(Progress::Complete(b)) if b == &data));
    }
}

#[test]
fn bridge_chunks_carry_every_sample() {
    let samples: Vec<i16> = (0..3_205i32).map(|i| ((i * 37) % 65_536 - 32_768) as i16).collect();
    let parts = build_request_stream(&samples, 16_000, chunk_samples_for(16_000));
    assert_eq!(parts.len(), 3 + 2);
    let bytes: Vec<u8> = parts
        .iter()
        .filter_map(|p| match p {
            AudioStreamPart::Audio(b) => Some(b.clone()),
            _ => None,
        })
        .flatten()
        .collect();
    assert_eq!(bytes.len(), 2 * samples.len());
    let expected: Vec<u8> = samples.iter().flat_map(|s| s.to_le_bytes()).collect();
    assert_eq!(bytes, expected);
}

#[test]
fn conversation_loop_knows_which_events_answer_its_command() {
    let (mut l, _) = ConversationLoop::new(&config(), "hey_jarvis");
    assert!(l.expects_event(&ConversationEvent::WakeWord));
    assert!(!l.expects_event(&ConversationEvent::ReplyReceived));
    l.on_event(ConversationEvent::WakeWord);
    assert!(l.expects_event(&ConversationEvent::SpeechActivity));
    assert!(l.expects_event(&ConversationEvent::Transcript("x".into())));
    assert!(!l.expects_event(&ConversationEvent::BargeIn));
    l.on_event(ConversationEvent::Transcript("x".into()));
    assert!(l.expects_event(&ConversationEvent::NotConnected));
    l.on_event(ConversationEvent::ReplyReceived);
    assert!(l.expects_event(&ConversationEvent::BargeIn));
    assert!(!l.expects_event(&ConversationEvent::WakeWord));
}

#[test]
fn silent_warm_listen_ends_cold() {
    let (mut l, _) = ConversationLoop::new(&config(), "hey_jarvis");
    let mut m = StateMachine::new();
    m.apply(Transition::Connect);
    for e in [ConversationEvent::WakeWord, ConversationEvent::SpeechActivity, ConversationEvent::SpeechActivity, ConversationEvent::ListenTimedOut] {
        if let Some(t) = l.on_event(e).transition {
            m.apply(t);
        }
    }
    assert_eq!(l.phase(), LoopPhase::Cold);
    assert_eq!(m.current().state, State::Idle);
    assert!(!m.current().conversation_active);
}
