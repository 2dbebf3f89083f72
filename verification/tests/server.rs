use prosopon::server::a2f::{bridge_track, A2fClient};
use prosopon::server::cognition::{
    chat_endpoint, nonempty_reply, ArgumentEntry, ChatMessage, ChatReply, JsonArgument,
    ToolArguments, ToolCall, ToolCallFunction,
};
use prosopon::server::config::{A2fConfig, CognitionConfig, Config, TtsConfig, WebrtcConfig};
use prosopon::server::pipeline::{
    extract_query, format_search_results, AgentAction, AgentTurn, Awaiting, MAX_TOOL_ROUNDS,
    SYSTEM_PROMPT,
};
use prosopon::server::signaling::{
    authorized, constant_time_eq, prune_dead_sessions, session_is_dead, PeerConnectionState,
};
use prosopon::server::tts::{fix_streaming_wav_header, looks_like_riff_wave, prepare_audio, speech_endpoint};
use prosopon::server::web_search::{select_provider, SearchProvider, SearchResult, SearchSetupError};
use prosopon::server::webrtc::{
    audio_header, blendshapes_header, chunk_payload, SessionHistory, AUDIO_CHUNK_SIZE,
};

fn streaming_wav() -> Vec<u8> {
    vec![
        b'R', b'I', b'F', b'F', 0xFF, 0xFF, 0xFF, 0xFF, // RIFF + size
        b'W', b'A', b'V', b'E', // WAVE
        b'f', b'm', b't', b' ', 16, 0, 0, 0, // fmt + size
        1, 0, 1, 0, // PCM, 1 channel
        0x40, 0x1F, 0, 0, // 8000 Hz
        0x80, 0x3E, 0, 0, // 16000 byte rate
        2, 0, 16, 0, // block align 2, 16-bit
        b'd', b'a', b't', b'a', 0xFF, 0xFF, 0xFF, 0xFF, // data + size
        0, 0, 0, 0, // 4 sample bytes
    ]
}

#[test]
fn fix_streaming_wav_header_patches_sizes() {
    let mut wav = streaming_wav();
    let total = wav.len() as u32;
    fix_streaming_wav_header(&mut wav);

    // RIFF size = total - 8.
    assert_eq!(&wav[4..8], &(total - 8).to_le_bytes());
    // data size = total - 44 (data chunk header at offset 36, data at 44).
    assert_eq!(&wav[40..44], &(total - 44).to_le_bytes());
}

#[test]
fn fix_streaming_wav_header_is_idempotent() {
    let mut once = streaming_wav();
    fix_streaming_wav_header(&mut once);
    let mut twice = once.clone();
    fix_streaming_wav_header(&mut twice);
    assert_eq!(once, twice);
}

#[test]
fn fix_streaming_wav_header_leaves_other_buffers_alone() {
    let mut short = vec![b'R', b'I', b'F', b'F', 1, 2, 3];
    fix_streaming_wav_header(&mut short);
    assert_eq!(short, vec![b'R', b'I', b'F', b'F', 1, 2, 3]);
    let mut not_wave = streaming_wav();
    not_wave[8] = b'X';
    let expected = not_wave.clone();
    fix_streaming_wav_header(&mut not_wave);
    assert_eq!(not_wave, expected);
}

#[test]
fn fix_streaming_wav_header_without_data_chunk_patches_riff_only() {
    let mut wav = streaming_wav();
    wav.truncate(36);
    let total = wav.len() as u32;
    let expected_tail = wav[8..].to_vec();
    fix_streaming_wav_header(&mut wav);
    assert_eq!(&wav[4..8], &(total - 8).to_le_bytes());
    assert_eq!(&wav[8..], &expected_tail[..]);
}

#[test]
fn fix_streaming_wav_header_skips_odd_chunks_with_padding() {
    // RIFF WAVE, a 3-byte "junk" chunk padded to 4, then "data".
    let mut wav = vec![
        b'R', b'I', b'F', b'F', 0xFF, 0xFF, 0xFF, 0xFF, b'W', b'A', b'V', b'E', b'j', b'u', b'n',
        b'k', 3, 0, 0, 0, 9, 9, 9, 0, b'd', b'a', b't', b'a', 0xFF, 0xFF, 0xFF, 0xFF, 1, 2,
    ];
    let total = wav.len() as u32;
    fix_streaming_wav_header(&mut wav);
    assert_eq!(&wav[4..8], &(total - 8).to_le_bytes());
    assert_eq!(&wav[28..32], &(total - 32).to_le_bytes());
}

#[test]
fn prepare_audio_rejects_empty_and_repairs_wav() {
    assert!(prepare_audio(Vec::new()).is_none());
    let mut expected = streaming_wav();
    fix_streaming_wav_header(&mut expected);
    assert_eq!(prepare_audio(streaming_wav()), Some(expected));
}

#[test]
fn constant_time_eq_matches_and_rejects() {
    assert!(constant_time_eq(b"secret", b"secret"));
    assert!(!constant_time_eq(b"secret", b"secre"));
    assert!(!constant_time_eq(b"secret", b"secreX"));
    assert!(!constant_time_eq(b"", b"x"));
}

#[test]
fn authorized_checks_bearer_token() {
    // Empty token = auth disabled.
    assert!(authorized("", None));
    // Token set, no header = rejected.
    assert!(!authorized("secret", None));
    // Correct token = accepted.
    assert!(authorized("secret", Some("Bearer secret")));
    // Wrong token = rejected.
    assert!(!authorized("secret", Some("Bearer wrong")));
}

#[test]
fn authorized_requires_the_exact_header() {
    assert!(!authorized("secret", Some("secret")));
    assert!(!authorized("secret", Some("bearer secret")));
    assert!(!authorized("secret", Some("Bearer secret ")));
    assert!(authorized("", Some("anything")));
}

#[test]
fn dead_sessions_are_pruned_in_order() {
    let mut sessions = vec!["a", "b", "c", "d", "e", "f", "g"];
    let states = vec![
        PeerConnectionState::Connected,
        PeerConnectionState::Disconnected,
        PeerConnectionState::New,
        PeerConnectionState::Closed,
        PeerConnectionState::Connecting,
        PeerConnectionState::Failed,
        PeerConnectionState::Unspecified,
    ];
    let dead = prune_dead_sessions(&mut sessions, &states);
    assert_eq!(sessions, vec!["a", "c", "e", "g"]);
    assert_eq!(dead, vec!["b", "d", "f"]);
    assert!(session_is_dead(PeerConnectionState::Failed));
    assert!(!session_is_dead(PeerConnectionState::Connected));
}

#[test]
fn chunking_splits_audio_into_16kib_pieces() {
    let audio = vec![0xABu8; 76 * 1024];
    let chunks = chunk_payload(&audio);
    assert_eq!(chunks.len(), 5);
    assert!(chunks.iter().all(|c| c.len() <= AUDIO_CHUNK_SIZE));
    let reassembled: Vec<u8> = chunks.iter().flat_map(|c| c.iter().copied()).collect();
    assert_eq!(reassembled, audio);
}

#[test]
fn chunking_edge_sizes() {
    assert!(chunk_payload(&[]).is_empty());
    let exact = vec![1u8; 2 * AUDIO_CHUNK_SIZE];
    let chunks = chunk_payload(&exact);
    assert_eq!(chunks.len(), 2);
    assert!(chunks.iter().all(|c| c.len() == AUDIO_CHUNK_SIZE));
    let one_more: Vec<u8> = (0..(AUDIO_CHUNK_SIZE + 1)).map(|i| (i % 251) as u8).collect();
    let chunks = chunk_payload(&one_more);
    assert_eq!(chunks.len(), 2);
    assert_eq!(chunks[1], vec![(AUDIO_CHUNK_SIZE % 251) as u8]);
}

#[test]
fn headers_announce_sizes() {
    assert_eq!(audio_header(77824), "audio:77824");
    assert_eq!(audio_header(0), "audio:0");
    assert_eq!(blendshapes_header(1234), "blendshapes:1234");
    assert_eq!(audio_header(usize::MAX), format!("audio:{}", usize::MAX));
}

fn call(name: &str, arguments: ToolArguments) -> ToolCall {
    ToolCall { function: ToolCallFunction { name: name.to_string(), arguments } }
}

fn query_object(query: &str) -> ToolArguments {
    ToolArguments::Object(vec![ArgumentEntry {
        key: "query".to_string(),
        value: JsonArgument::Text(query.to_string()),
    }])
}

#[test]
fn extract_query_handles_object_and_string() {
    let obj = call("web_search", query_object("rust lang"));
    assert_eq!(extract_query(&obj), "rust lang");

    let str_args = call("web_search", ToolArguments::Text("rust lang".to_string()));
    assert_eq!(extract_query(&str_args), "rust lang");
}

#[test]
fn extract_query_tolerates_other_shapes() {
    let number = call(
        "web_search",
        ToolArguments::Object(vec![
            ArgumentEntry { key: "limit".to_string(), value: JsonArgument::Other("5".to_string()) },
            ArgumentEntry { key: "query".to_string(), value: JsonArgument::Other("7".to_string()) },
        ]),
    );
    assert_eq!(extract_query(&number), "");
    let other = call("web_search", ToolArguments::Other("null".to_string()));
    assert_eq!(extract_query(&other), "");
    let missing = call("web_search", ToolArguments::Object(Vec::new()));
    assert_eq!(extract_query(&missing), "");
}

fn result(title: &str, url: &str, snippet: &str) -> SearchResult {
    SearchResult { title: title.into(), url: url.into(), snippet: snippet.into() }
}

#[test]
fn format_search_results_renders_entries() {
    let results = vec![result("T", "https://x", "body")];
    let text = format_search_results(&results);
    assert!(text.contains("[0] T"));
    assert!(text.contains("https://x"));
    assert!(text.contains("body"));
}

#[test]
fn format_search_results_empty() {
    assert_eq!(format_search_results(&[]), "No results found.");
}

#[test]
fn format_search_results_exact_layout() {
    let results = vec![result("A", "u1", "s1"), result("B", "u2", "s2")];
    assert_eq!(format_search_results(&results), "[0] A\nu1\ns1\n\n[1] B\nu2\ns2");
}

#[test]
fn provider_selection() {
    let k = String::from("key");
    let none = String::new();
    assert_eq!(select_provider(&"tavily".into(), &k, &none).ok(), Some(SearchProvider::Tavily));
    assert_eq!(select_provider(&"brave".into(), &none, &k).ok(), Some(SearchProvider::Brave));
    assert!(matches!(
        select_provider(&"tavily".into(), &none, &k),
        Err(SearchSetupError::MissingApiKey(p)) if p == "tavily"
    ));
    assert!(matches!(
        select_provider(&"brave".into(), &k, &none),
        Err(SearchSetupError::MissingApiKey(p)) if p == "brave"
    ));
    assert!(matches!(
        select_provider(&"bing".into(), &k, &k),
        Err(SearchSetupError::UnknownProvider(p)) if p == "bing"
    ));
}

#[test]
fn chat_messages_have_their_roles() {
    assert_eq!(ChatMessage::user("hi").role, "user");
    assert_eq!(ChatMessage::assistant("a").role, "assistant");
    assert_eq!(ChatMessage::system("s").role, "system");
    assert_eq!(ChatMessage::tool("t").role, "tool");
    let m = ChatMessage::assistant_with_tool_calls("", vec![call("web_search", query_object("q"))]);
    assert_eq!(m.role, "assistant");
    assert_eq!(m.content, "");
    assert_eq!(m.tool_calls.as_ref().map(|c| c.len()), Some(1));
    assert!(ChatMessage::user("hi").tool_calls.is_none());
}

#[test]
fn empty_replies_are_rejected() {
    assert_eq!(nonempty_reply("  \n".to_string()), None);
    assert_eq!(nonempty_reply(String::new()), None);
    assert_eq!(nonempty_reply(" hello ".to_string()), Some(" hello ".to_string()));
}

#[test]
fn endpoints_drop_trailing_slashes() {
    assert_eq!(chat_endpoint("http://localhost:11434/"), "http://localhost:11434/api/chat");
    assert_eq!(chat_endpoint("http://h"), "http://h/api/chat");
    assert_eq!(speech_endpoint("http://k:21802//"), "http://k:21802/v1/audio/speech");
}

fn reply(content: &str, calls: Vec<ToolCall>) -> ChatReply {
    ChatReply { content: content.to_string(), tool_calls: calls }
}

#[test]
fn agent_turn_answers_directly() {
    let history = vec![ChatMessage::user("hello")];
    let (mut turn, first) = AgentTurn::start(&history);
    assert!(matches!(first, AgentAction::Chat));
    assert_eq!(turn.working().len(), 2);
    assert_eq!(turn.working()[0].role, "system");
    assert_eq!(turn.working()[0].content, SYSTEM_PROMPT);
    assert_eq!(turn.working()[1].content, "hello");
    match turn.on_chat_reply(reply("Hi there.", Vec::new())) {
        AgentAction::Respond(r) => assert_eq!(r, "Hi there."),
        other => panic!("unexpected {other:?}"),
    }
    assert_eq!(turn.awaiting(), Awaiting::Nothing);
    // The caller's history is untouched.
    assert_eq!(history.len(), 1);
}

#[test]
fn agent_turn_runs_a_search_then_answers() {
    let history = vec![ChatMessage::user("weather?")];
    let (mut turn, _) = AgentTurn::start(&history);
    let calls = vec![call("other_tool", query_object("x")), call("web_search", query_object("weather today"))];
    match turn.on_chat_reply(reply("", calls)) {
        AgentAction::Search(q) => assert_eq!(q, "weather today"),
        other => panic!("unexpected {other:?}"),
    }
    assert_eq!(turn.working().len(), 3);
    assert_eq!(turn.working()[2].role, "assistant");
    let results = vec![result("Sunny", "https://w", "warm")];
    assert!(matches!(turn.on_search_results(&results), AgentAction::Chat));
    assert_eq!(turn.working().len(), 4);
    assert_eq!(turn.working()[3].role, "tool");
    assert_eq!(turn.working()[3].content, "[0] Sunny\nhttps://w\nwarm");
    match turn.on_chat_reply(reply("It is sunny.", Vec::new())) {
        AgentAction::Respond(r) => assert_eq!(r, "It is sunny."),
        other => panic!("unexpected {other:?}"),
    }
}

#[test]
fn agent_turn_gives_up_after_max_rounds() {
    let (mut turn, _) = AgentTurn::start(&[ChatMessage::user("loop")]);
    let mut chats = 1;
    loop {
        let action = turn.on_chat_reply(reply("", vec![call("web_search", query_object("q"))]));
        let AgentAction::Search(_) = action else { panic!("expected a search") };
        match turn.on_search_results(&[]) {
            AgentAction::Chat => chats += 1,
            AgentAction::NoReply => break,
            other => panic!("unexpected {other:?}"),
        }
    }
    assert_eq!(chats, MAX_TOOL_ROUNDS);
}

#[test]
fn agent_turn_blank_reply_is_no_reply() {
    let (mut turn, _) = AgentTurn::start(&[ChatMessage::user("?")]);
    assert!(matches!(turn.on_chat_reply(reply("   ", Vec::new())), AgentAction::NoReply));
}

#[test]
fn agent_turn_ignores_other_tools() {
    let (mut turn, _) = AgentTurn::start(&[ChatMessage::user("?")]);
    let action = turn.on_chat_reply(reply("", vec![call("calculator", query_object("1+1"))]));
    assert!(matches!(action, AgentAction::Chat));
    assert_eq!(turn.working().len(), 3);
}

#[test]
fn session_history_accumulates_turns() {
    let mut h = SessionHistory::new();
    h.push_user("one");
    h.push_assistant("reply one");
    h.push_user("two");
    let m = h.messages();
    assert_eq!(m.len(), 3);
    assert_eq!((m[0].role.as_str(), m[0].content.as_str()), ("user", "one"));
    assert_eq!((m[1].role.as_str(), m[1].content.as_str()), ("assistant", "reply one"));
    assert_eq!((m[2].role.as_str(), m[2].content.as_str()), ("user", "two"));
}

#[test]
fn server_defaults() {
    let cfg = Config::default();
    assert_eq!(cfg.tts, TtsConfig::default());
    assert_eq!(cfg.tts.voice, "af_heart");
    assert_eq!(cfg.tts.base_url, "http://localhost:21802");
    assert_eq!(cfg.tts.model, "kokoro");
    assert_eq!(cfg.cognition, CognitionConfig::default());
    assert_eq!(cfg.cognition.model, "qwen2.5:3b");
    assert_eq!(cfg.cognition.base_url, "http://localhost:11434");
    assert_eq!(cfg.webrtc, WebrtcConfig::default());
    assert_eq!(cfg.webrtc.listen_port, 29434);
    assert_eq!(cfg.signaling.listen_port, 29435);
    assert!(cfg.signaling.auth_token.is_empty());
    assert!(!cfg.signaling.tls.enabled());
    assert_eq!(cfg.web_search.provider, "tavily");
    assert!(!cfg.a2f.enabled);
}

#[test]
fn a2f_client_takes_its_settings() {
    let cfg = A2fConfig {
        enabled: true,
        bridge_path: "/usr/bin/a2f-bridge".into(),
        endpoint: "http://a2f:52000".into(),
        timeout_secs: 7,
    };
    let c = A2fClient::new(&cfg);
    assert!(c.enabled());
    assert_eq!(c.bridge_path(), "/usr/bin/a2f-bridge");
    assert_eq!(c.endpoint(), "http://a2f:52000");
    assert_eq!(c.timeout_secs(), 7);
    assert!(!A2fClient::new(&A2fConfig::default()).enabled());
}

#[test]
fn bridge_track_drops_blank_output() {
    assert_eq!(bridge_track(" \n".to_string()), None);
    let line = "{\"t\":0.033,\"v\":[0.0]}\n".to_string();
    assert_eq!(bridge_track(line.clone()), Some(line));
}

#[test]
fn pruning_partitions_the_sessions() {
    let mut sessions = vec![1, 2, 3];
    let alive = vec![PeerConnectionState::Connected, PeerConnectionState::New, PeerConnectionState::Connecting];
    let dead = prune_dead_sessions(&mut sessions, &alive);
    assert_eq!(sessions, vec![1, 2, 3]);
    assert!(dead.is_empty());
    let mut sessions = vec![10, 20, 30, 40];
    let states = vec![
        PeerConnectionState::Failed,
        PeerConnectionState::Connected,
        PeerConnectionState::Closed,
        PeerConnectionState::Disconnected,
    ];
    let dead = prune_dead_sessions(&mut sessions, &states);
    assert_eq!(sessions.len() + dead.len(), 4);
    assert_eq!(sessions, vec![20]);
    assert_eq!(dead, vec![10, 30, 40]);
}

#[test]
fn working_conversation_only_grows() {
    let history = vec![ChatMessage::user("first"), ChatMessage::assistant("reply"), ChatMessage::user("second")];
    let (mut turn, _) = AgentTurn::start(&history);
    let snapshot = |t: &AgentTurn| -> Vec<(String, String)> {
        t.working().iter().map(|m| (m.role.clone(), m.content.clone())).collect()
    };
    let before = snapshot(&turn);
    assert_eq!(before.len(), 4);
    assert_eq!(before[0], ("system".to_string(), SYSTEM_PROMPT.to_string()));
    turn.on_chat_reply(reply("looking", vec![call("web_search", query_object("q"))]));
    let mid = snapshot(&turn);
    assert_eq!(&mid[..4], &before[..]);
    assert_eq!(mid[4], ("assistant".to_string(), "looking".to_string()));
    turn.on_search_results(&[]);
    let after = snapshot(&turn);
    assert_eq!(&after[..5], &mid[..]);
    assert_eq!(after[5], ("tool".to_string(), "No results found.".to_string()));
}

#[test]
fn riff_wave_buffers_are_recognized() {
    assert!(looks_like_riff_wave(&streaming_wav()));
    assert!(!looks_like_riff_wave(b"RIFF\0\0\0\0WAV"));
    assert!(!looks_like_riff_wave(b"RIFX\0\0\0\0WAVEfmt "));
    assert!(!looks_like_riff_wave(b"RIFF\0\0\0\0AVI fmt "));
    let mut other = b"not a wav file at all".to_vec();
    let before = other.clone();
    fix_streaming_wav_header(&mut other);
    assert_eq!(other, before);
}
