# Prosopon

Skye's voice + avatar presence: a client that owns the microphone and the
speaker, and a server where cognition (Ollama), web search (Tavily or
Brave), speech synthesis (Kokoro) and the Audio2Face-3D blendshape track
live. The two talk over a WebRTC data channel negotiated through an HTTP
signaling endpoint.

The decisions and data formats are a Verus library, proved against their
contracts; the I/O around them is ordinary Rust.

## Layout

- `src/` — the verified library (`prosopon`):
  - `state_machine` — the presence state machine that drives the orb, with
    its laws (reachable states are well formed, mute is orthogonal to
    presence, barge-in only while warm, ...).
  - `server::tts` — the repair of Kokoro's streaming WAV header.
  - `server::signaling` — the signaling message, the constant-time bearer
    token check, the pruning of dead sessions.
  - `server::webrtc` — the data-channel framing (`audio:<n>` /
    `blendshapes:<n>` headers, 16 KiB chunks) and the per-session history.
  - `server::cognition`, `server::pipeline` — chat messages and the agent
    loop of one turn (query, search, respond, bounded rounds).
  - `server::web_search`, `server::a2f`, `server::config` — provider choice,
    bridge settings, configuration defaults.
  - `client::webrtc_client` — reassembly of a framed payload, with the law
    that a payload sent as header + chunks is received whole.
  - `client::conversation` — the voice loop's decisions (wake word, listen,
    send, play, barge-in) and the wake-phrase stripping of transcripts.
  - `client::stt`, `client::wake_word`, `client::signaling`, `client::logs`,
    `client::config` — sidecar line protocols, the bearer header, the
    bounded log buffer, configuration defaults.
  - `bridge` — the request stream sent to the Audio2Face-3D service.
  - `text` — decimal rendering and parsing, Unicode trimming.
- `tests/` — tests of the library on concrete values.
- `app/` — the server binary and the runtime around the library: YAML
  loading, HTTP clients, WebRTC transport, TLS, sidecar processes, the
  client's conversation runtime, and the floating-point audio helpers.

## Running

```bash
prosopon-server [config.yaml]
```

Every configuration key is optional; missing keys take the defaults of the
library's `Default` impls (Kokoro `af_heart`, Ollama `qwen2.5:3b`, ICE port
29434, signaling port 29435).
