//! The line protocol of the speech-to-text sidecar (Moonshine Voice).
//!
//! The sidecar prints one line per transcript update: `FINAL <text>` for a
//! completed utterance and `PARTIAL <text>` while speech is in progress.
//! Each `FINAL` line becomes a completed utterance; each `PARTIAL` line
//! becomes an activity signal so the caller can keep a warm session alive
//! while the user is still speaking. Other lines are ignored.
use vstd::prelude::*;
use crate::text::{chars_of, has_prefix, starts_with, string_of, trim, trim_bounds};

verus! {

/// Declares std's `std::io::Error` (the error a sidecar spawn reports) so
/// that the error types below can carry it; nothing is claimed of its
/// contents.
#[verifier::external_type_specification]
#[verifier::external_body]
pub struct ExIoError(std::io::Error);

/// Errors of the speech-to-text sidecar.
#[derive(Debug)]
pub enum SttError {
    /// The sidecar could not be spawned (or one of its pipes was missing).
    Spawn(std::io::Error),
}

/// An event emitted by the STT sidecar.
#[derive(Debug, Clone)]
pub enum SttEvent {
    /// A completed utterance (the text after `FINAL `, trimmed).
    Final(String),
    /// Speech is in progress (a `PARTIAL` line was emitted).
    Partial,
}

/// The view of an event: `Some(text)` for a completed utterance, `None` for
/// an activity signal.
pub open spec fn stt_event_view(e: SttEvent) -> Option<Seq<char>> {
    match e {
        SttEvent::Final(t) => Some(t@),
        SttEvent::Partial => None,
    }
}

/// The event a sidecar line stands for: `Some(Some(text))` for a `FINAL`
/// line (its text trimmed), `Some(None)` for a `PARTIAL` line, `None` for
/// any other line.
pub open spec fn sidecar_line_event(line: Seq<char>) -> Option<Option<Seq<char>>> {
    if has_prefix(line, "FINAL "@) {
        Some(Some(trim(line.subrange(6, line.len() as int))))
    } else if has_prefix(line, "PARTIAL "@) {
        Some(None)
    } else {
        None
    }
}

/// Read one line of the sidecar's stdout.
pub fn parse_sidecar_line(line: &str) -> (e: Option<SttEvent>)
    ensures
        match sidecar_line_event(line@) {
            None => e is None,
            Some(v) => e matches Some(ev) && stt_event_view(ev) == v,
        },
{
    let v = chars_of(line);
    let final_tag = chars_of("FINAL ");
    let partial_tag = chars_of("PARTIAL ");
    proof {
        reveal_strlit("FINAL ");
        reveal_strlit("PARTIAL ");
    }
    if starts_with(v.as_slice(), final_tag.as_slice()) {
        let (start, end) = trim_bounds(v.as_slice(), 6);
        Some(SttEvent::Final(string_of(v.as_slice(), start, end)))
    } else if starts_with(v.as_slice(), partial_tag.as_slice()) {
        Some(SttEvent::Partial)
    } else {
        None
    }
}

} // verus!
