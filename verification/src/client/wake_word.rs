//! The line protocol of the wake-word sidecar (openWakeWord): each line that
//! reads `WAKE` (surrounding whitespace aside) is one detection.
use vstd::prelude::*;
use crate::text::{chars_of, string_of, trim, trim_bounds};

verus! {

/// Errors of the wake-word sidecar.
#[derive(Debug)]
pub enum WakeWordError {
    /// The sidecar could not be spawned (or one of its pipes was missing).
    Spawn(std::io::Error),
}

/// Whether a line of the sidecar's stdout reports a detection.
pub fn is_wake_line(line: &str) -> (b: bool)
    ensures
        b == (trim(line@) == "WAKE"@),
{
    let v = chars_of(line);
    let (start, end) = trim_bounds(v.as_slice(), 0);
    assert(v@.subrange(0, v@.len() as int) =~= line@);
    let t = string_of(v.as_slice(), start, end);
    let wake = "WAKE".to_owned();
    t == wake
}

} // verus!
