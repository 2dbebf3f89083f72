//! The framing of the data channel's server-to-client messages.
//!
//! The SCTP data channel's default max message size is 64 KiB (RFC 8841),
//! and a synthesized reply is usually larger, so a payload goes out as a
//! text header `audio:<total_bytes>` (or `blendshapes:<total_bytes>` for the
//! avatar track) followed by binary chunks of at most 16 KiB. The channel is
//! ordered and reliable, so the client reassembles by concatenation.
use vstd::prelude::*;
use crate::text::{decimal, push_decimal};
use crate::server::cognition::{messages_view, plain_message, ChatMessage, ChatMessageView};

verus! {

/// Maximum size of a single audio chunk sent over the data channel.
pub const AUDIO_CHUNK_SIZE: usize = 16 * 1024;

/// The text header that announces a payload of `n` bytes.
pub open spec fn frame_header(prefix: Seq<char>, n: nat) -> Seq<char> {
    prefix + decimal(n)
}

/// The prefix of the audio header.
pub open spec fn audio_prefix() -> Seq<char> {
    "audio:"@
}

/// The prefix of the blendshape track header.
pub open spec fn blendshapes_prefix() -> Seq<char> {
    "blendshapes:"@
}

/// How many chunks a payload of `n` bytes is sent in.
pub open spec fn chunk_count(n: nat) -> nat {
    ((n + 16384 - 1) / 16384) as nat
}

/// The end (exclusive) of chunk `k` of a payload of `n` bytes.
pub open spec fn chunk_end(n: nat, k: int) -> int {
    if (k + 1) * 16384 <= n {
        (k + 1) * 16384
    } else {
        n as int
    }
}

/// Chunk `k` of `data`: bytes `[16 KiB * k, min(16 KiB * (k + 1), len))`.
pub open spec fn chunk_of(data: Seq<u8>, k: int) -> Seq<u8> {
    data.subrange(k * 16384, chunk_end(data.len(), k))
}

/// The header announcing an audio payload of `len` bytes.
pub fn audio_header(len: usize) -> (h: String)
    ensures
        h@ == frame_header(audio_prefix(), len as nat),
{
    let mut h: String = "audio:".to_owned();
    push_decimal(&mut h, len);
    h
}

/// The header announcing a blendshape track of `len` bytes.
pub fn blendshapes_header(len: usize) -> (h: String)
    ensures
        h@ == frame_header(blendshapes_prefix(), len as nat),
{
    let mut h: String = "blendshapes:".to_owned();
    push_decimal(&mut h, len);
    h
}

/// Split a payload into the binary messages that follow its header: chunks
/// of exactly 16 KiB, the last one possibly shorter, none empty.
pub fn chunk_payload(data: &[u8]) -> (chunks: Vec<Vec<u8>>)
    ensures
        chunks@.len() == chunk_count(data@.len()),
        forall|k: int| 0 <= k < chunks@.len() ==> #[trigger] chunks@[k]@ == chunk_of(data@, k),
{
    let n = data.len();
    let mut chunks: Vec<Vec<u8>> = Vec::new();
    let mut start: usize = 0;
    while start < n
        invariant
            n == data@.len(),
            start <= n,
            start < n ==> start == chunks@.len() * 16384,
            start < n ==> chunks@.len() < chunk_count(n as nat),
            start == n ==> chunks@.len() == chunk_count(n as nat),
            forall|k: int| 0 <= k < chunks@.len() ==> #[trigger] chunks@[k]@ == chunk_of(data@, k),
        decreases n - start,
    {
        let k: usize = chunks.len();
        let end: usize = if n - start >= AUDIO_CHUNK_SIZE {
            start + AUDIO_CHUNK_SIZE
        } else {
            n
        };
        let mut chunk: Vec<u8> = Vec::new();
        let mut i = start;
        while i < end
            invariant
                start <= i <= end <= n,
                n == data@.len(),
                chunk@ == data@.subrange(start as int, i as int),
            decreases end - i,
        {
            chunk.push(data[i]);
            assert(chunk@ =~= data@.subrange(start as int, i + 1));
            i = i + 1;
        }
        assert(end == chunk_end(n as nat, k as int));
        chunks.push(chunk);
        assert(chunks@[k as int]@ == chunk_of(data@, k as int));
        proof {
            if end < n {
                assert(end == (k + 1) * 16384);
                assert((k + 1) * 16384 + 16384 - 1 < n + 16384 - 1);
                assert(chunk_count(n as nat) > k + 1) by (nonlinear_arith)
                    requires
                        (k + 1) * 16384 < n,
                        chunk_count(n as nat) == (n + 16384 - 1) / 16384,
                ;
            } else {
                assert(chunk_count(n as nat) == k + 1) by (nonlinear_arith)
                    requires
                        k * 16384 < n,
                        n <= (k + 1) * 16384,
                        chunk_count(n as nat) == (n + 16384 - 1) / 16384,
                ;
            }
        }
        start = end;
    }
    chunks
}

/// Concatenate the first `k` chunks.
pub open spec fn concat_chunks(chunks: Seq<Seq<u8>>, k: int) -> Seq<u8>
    decreases k,
{
    if k <= 0 {
        Seq::empty()
    } else {
        concat_chunks(chunks, k - 1) + chunks[k - 1]
    }
}

/// Concatenating the chunks of a payload gives the payload back: the first
/// `k` chunks are exactly its first `min(16 KiB * k, len)` bytes.
pub proof fn chunks_concatenate_to_payload(data: Seq<u8>, k: int)
    requires
        0 <= k <= chunk_count(data.len()),
    ensures
        concat_chunks(Seq::new(chunk_count(data.len()), |i: int| chunk_of(data, i)), k)
            == data.subrange(0, if k == 0 { 0 } else { chunk_end(data.len(), k - 1) }),
        k == chunk_count(data.len()) ==> concat_chunks(
            Seq::new(chunk_count(data.len()), |i: int| chunk_of(data, i)),
            k,
        ) == data,
    decreases k,
{
    let chunks = Seq::new(chunk_count(data.len()), |i: int| chunk_of(data, i));
    if k > 0 {
        chunks_concatenate_to_payload(data, k - 1);
        let prev_end = if k - 1 == 0 {
            0
        } else {
            chunk_end(data.len(), k - 2)
        };
        assert(prev_end == (k - 1) * 16384);
        assert(data.subrange(0, prev_end) + chunk_of(data, k - 1) =~= data.subrange(
            0,
            chunk_end(data.len(), k - 1),
        ));
    }
    if k == chunk_count(data.len()) {
        if k == 0 {
            assert(data =~= Seq::<u8>::empty());
        } else {
            assert(chunk_end(data.len(), k - 1) == data.len());
        }
        assert(data.subrange(0, data.len() as int) =~= data);
    }
}

/// The conversation of one data-channel session. Each data channel is one
/// client session: the user's utterances and the assistant's replies
/// accumulate here across turns, and the whole history goes with each turn.
pub struct SessionHistory {
    messages: Vec<ChatMessage>,
}

impl View for SessionHistory {
    type V = Seq<ChatMessageView>;

    closed spec fn view(&self) -> Seq<ChatMessageView> {
        messages_view(self.messages@)
    }
}

impl SessionHistory {
    /// A session with no turns yet.
    pub fn new() -> (h: Self)
        ensures
            h@.len() == 0,
    {
        let h = SessionHistory { messages: Vec::new() };
        assert(h@ =~= Seq::<ChatMessageView>::empty());
        h
    }

    /// Record the user's utterance (a text message from the client).
    pub fn push_user(&mut self, text: &str)
        ensures
            final(self)@ == old(self)@.push(plain_message("user"@, text@)),
    {
        let m = ChatMessage::user(text);
        self.messages.push(m);
        assert(self@ =~= old(self)@.push(m@));
    }

    /// Record the assistant's reply of a successful turn.
    pub fn push_assistant(&mut self, reply: &str)
        ensures
            final(self)@ == old(self)@.push(plain_message("assistant"@, reply@)),
    {
        let m = ChatMessage::assistant(reply);
        self.messages.push(m);
        assert(self@ =~= old(self)@.push(m@));
    }

    /// The history so far, oldest first.
    pub fn messages(&self) -> (m: &[ChatMessage])
        ensures
            messages_view(m@) == self@,
    {
        self.messages.as_slice()
    }
}

} // verus!
