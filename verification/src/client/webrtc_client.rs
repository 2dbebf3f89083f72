//! The receiving side of the data channel's framing.
//!
//! The server sends a payload as a text header `<prefix><total_bytes>`
//! followed by binary chunks (see [`crate::server::webrtc`]). The client
//! reads the header, then accumulates binary messages until it has
//! `total_bytes` bytes. [`FramedReceiver`] makes those decisions one channel
//! event at a time; the transport loop feeds it events and stops once it
//! reports a result.
use vstd::prelude::*;
use crate::server::webrtc::{chunk_count, chunk_end, chunk_of, frame_header};
use crate::text::{
    chars_of, decimal, decimal_round_trip, decimal_text_value, parse_usize, string_of, trim,
    trim_bounds,
};

verus! {

/// An event polled from a data channel.
#[derive(Debug)]
pub enum ChannelEvent {
    /// A text message (its bytes read as UTF-8).
    Text(String),
    /// A binary message.
    Binary(Vec<u8>),
    /// The channel closed (or the event stream ended).
    Closed,
    /// Any other event (open, buffered-amount, error notifications).
    Other,
}

/// The mathematical view of a channel event.
pub enum ChannelEventView {
    Text(Seq<char>),
    Binary(Seq<u8>),
    Closed,
    Other,
}

impl View for ChannelEvent {
    type V = ChannelEventView;

    open spec fn view(&self) -> ChannelEventView {
        match self {
            ChannelEvent::Text(t) => ChannelEventView::Text(t@),
            ChannelEvent::Binary(b) => ChannelEventView::Binary(b@),
            ChannelEvent::Closed => ChannelEventView::Closed,
            ChannelEvent::Other => ChannelEventView::Other,
        }
    }
}

/// Why a framed payload could not be received.
#[derive(Debug)]
pub enum ReceiveError {
    /// The channel closed before any header arrived: the peer never sent on
    /// it (for the blendshapes channel: the server never opened it).
    NotOpen,
    /// The channel closed after the header, before the payload was complete.
    ChannelClosed,
    /// The header's size was not a valid byte count (the header text).
    InvalidHeader(String),
}

/// The view of a receive error.
pub enum ReceiveErrorView {
    NotOpen,
    ChannelClosed,
    InvalidHeader(Seq<char>),
}

impl View for ReceiveError {
    type V = ReceiveErrorView;

    open spec fn view(&self) -> ReceiveErrorView {
        match self {
            ReceiveError::NotOpen => ReceiveErrorView::NotOpen,
            ReceiveError::ChannelClosed => ReceiveErrorView::ChannelClosed,
            ReceiveError::InvalidHeader(t) => ReceiveErrorView::InvalidHeader(t@),
        }
    }
}

/// What the receiver reports after an event.
#[derive(Debug)]
pub enum Progress {
    /// More events are needed.
    Pending,
    /// The payload is complete.
    Complete(Vec<u8>),
    /// The payload cannot be received.
    Failed(ReceiveError),
}

/// The view of a progress report.
pub enum ProgressView {
    Pending,
    Complete(Seq<u8>),
    Failed(ReceiveErrorView),
}

impl View for Progress {
    type V = ProgressView;

    open spec fn view(&self) -> ProgressView {
        match self {
            Progress::Pending => ProgressView::Pending,
            Progress::Complete(b) => ProgressView::Complete(b@),
            Progress::Failed(e) => ProgressView::Failed(e@),
        }
    }
}

/// The state of a receiver: the header prefix it waits for, the announced
/// size once the header has arrived, the bytes gathered so far, and whether
/// it has reported its result.
pub struct ReceiverView {
    pub prefix: Seq<char>,
    pub total: Option<nat>,
    pub buf: Seq<u8>,
    pub finished: bool,
}

/// A receiver that still waits for its header.
pub open spec fn awaiting_header(prefix: Seq<char>) -> ReceiverView {
    ReceiverView { prefix, total: None, buf: Seq::empty(), finished: false }
}

/// A receiver that has read a header announcing `total` bytes and holds
/// `buf`.
pub open spec fn receiving(prefix: Seq<char>, total: nat, buf: Seq<u8>) -> ReceiverView {
    ReceiverView { prefix, total: Some(total), buf, finished: false }
}

/// A receiver that has reported its result.
pub open spec fn finished(r: ReceiverView) -> ReceiverView {
    ReceiverView { prefix: r.prefix, total: r.total, buf: r.buf, finished: true }
}

/// What a text message says as a header: `None` when it does not start with
/// the prefix (it is skipped), `Some(Some(n))` for a valid size `n`, and
/// `Some(None)` for an invalid size (the text after the prefix, trimmed, is
/// not a decimal `usize`).
pub open spec fn header_size(prefix: Seq<char>, t: Seq<char>) -> Option<Option<nat>> {
    if prefix.len() <= t.len() && t.subrange(0, prefix.len() as int) == prefix {
        match decimal_text_value(trim(t.subrange(prefix.len() as int, t.len() as int))) {
            Some(v) => if v <= usize::MAX {
                Some(Some(v as nat))
            } else {
                Some(None)
            },
            None => Some(None),
        }
    } else {
        None
    }
}

/// One step of the receiver: the state after event `e` and what it reports.
pub open spec fn receive_step(r: ReceiverView, e: ChannelEventView) -> (ReceiverView, ProgressView) {
    match r.total {
        None => match e {
            ChannelEventView::Text(t) => match header_size(r.prefix, t) {
                None => (r, ProgressView::Pending),
                Some(None) => (
                    finished(r),
                    ProgressView::Failed(ReceiveErrorView::InvalidHeader(t)),
                ),
                Some(Some(n)) => if n == 0 {
                    (
                        finished(receiving(r.prefix, 0, Seq::empty())),
                        ProgressView::Complete(Seq::empty()),
                    )
                } else {
                    (receiving(r.prefix, n, Seq::empty()), ProgressView::Pending)
                },
            },
            ChannelEventView::Closed => (
                finished(r),
                ProgressView::Failed(ReceiveErrorView::NotOpen),
            ),
            _ => (r, ProgressView::Pending),
        },
        Some(total) => match e {
            ChannelEventView::Binary(d) => {
                let buf = r.buf + d;
                if buf.len() >= total {
                    (finished(receiving(r.prefix, total, buf)), ProgressView::Complete(buf))
                } else {
                    (receiving(r.prefix, total, buf), ProgressView::Pending)
                }
            },
            ChannelEventView::Closed => (
                finished(r),
                ProgressView::Failed(ReceiveErrorView::ChannelClosed),
            ),
            _ => (r, ProgressView::Pending),
        },
    }
}

/// A receiver of one framed payload (an audio reply or a blendshape track).
pub struct FramedReceiver {
    prefix: String,
    total: Option<usize>,
    buf: Vec<u8>,
    finished: bool,
}

impl View for FramedReceiver {
    type V = ReceiverView;

    closed spec fn view(&self) -> ReceiverView {
        ReceiverView {
            prefix: self.prefix@,
            total: match self.total {
                Some(n) => Some(n as nat),
                None => None,
            },
            buf: self.buf@,
            finished: self.finished,
        }
    }
}

impl FramedReceiver {
    #[verifier::type_invariant]
    spec fn buffer_starts_after_header(self) -> bool {
        self.total is None ==> self.buf@.len() == 0
    }

    /// A receiver waiting for a header that starts with `prefix`.
    pub fn new(prefix: &str) -> (r: Self)
        ensures
            r@ == awaiting_header(prefix@),
    {
        FramedReceiver { prefix: prefix.to_owned(), total: None, buf: Vec::new(), finished: false }
    }

    /// A receiver for an audio reply (`audio:<n>`).
    pub fn audio() -> (r: Self)
        ensures
            r@ == awaiting_header("audio:"@),
    {
        Self::new("audio:")
    }

    /// A receiver for a blendshape track (`blendshapes:<n>`).
    pub fn blendshapes() -> (r: Self)
        ensures
            r@ == awaiting_header("blendshapes:"@),
    {
        Self::new("blendshapes:")
    }

    /// Whether the receiver has reported its result.
    pub fn is_finished(&self) -> (b: bool)
        ensures
            b == self@.finished,
    {
        self.finished
    }

    /// Read a text message as a header (see [`header_size`]).
    fn read_header(&self, t: &String) -> (r: Option<Option<usize>>)
        ensures
            r is None <==> header_size(self@.prefix, t@) is None,
            r == Some(None::<usize>) <==> header_size(self@.prefix, t@) == Some(None::<nat>),
            r matches Some(Some(n)) ==> header_size(self@.prefix, t@) == Some(Some(n as nat)),
    {
        let p: Vec<char> = chars_of(self.prefix.as_str());
        let v: Vec<char> = chars_of(t.as_str());
        if p.len() > v.len() {
            return None;
        }
        let mut i: usize = 0;
        while i < p.len()
            invariant
                p@ == self@.prefix,
                v@ == t@,
                p@.len() <= v@.len(),
                i <= p@.len(),
                forall|j: int| 0 <= j < i ==> p@[j] == v@[j],
            decreases p@.len() - i,
        {
            if p[i] != v[i] {
                proof {
                    assert(v@.subrange(0, p@.len() as int)[i as int] != p@[i as int]);
                }
                return None;
            }
            i = i + 1;
        }
        assert(v@.subrange(0, p@.len() as int) =~= p@);
        let (start, end) = trim_bounds(v.as_slice(), p.len());
        assert(v@.subrange(p@.len() as int, v@.len() as int) =~= t@.subrange(
            self@.prefix.len() as int,
            t@.len() as int,
        ));
        assert(t@.subrange(0, self@.prefix.len() as int) == self@.prefix);
        let ghost rest = t@.subrange(self@.prefix.len() as int, t@.len() as int);
        assert(v@.subrange(start as int, end as int) == trim(rest));
        assert(header_size(self@.prefix, t@) == match decimal_text_value(trim(rest)) {
            Some(x) => if x <= usize::MAX {
                Some(Some(x as nat))
            } else {
                Some(None)
            },
            None => Some(None),
        });
        match parse_usize(v.as_slice(), start, end) {
            Some(n) => Some(Some(n)),
            None => Some(None),
        }
    }

    /// Feed one channel event; the receiver reports whether the payload is
    /// complete, failed, or needs more events.
    pub fn on_event(&mut self, e: ChannelEvent) -> (p: Progress)
        requires
            !old(self)@.finished,
        ensures
            (final(self)@, p@) == receive_step(old(self)@, e@),
    {
        proof {
            use_type_invariant(&*self);
        }
        match self.total {
            None => match e {
                ChannelEvent::Text(t) => match self.read_header(&t) {
                    None => {
                        Progress::Pending
                    },
                    Some(None) => {
                        self.finished = true;
                        Progress::Failed(ReceiveError::InvalidHeader(t))
                    },
                    Some(Some(n)) => {
                        assert(self.buf@ =~= Seq::<u8>::empty());
                        if n == 0 {
                            self.total = Some(0);
                            self.finished = true;
                            Progress::Complete(Vec::new())
                        } else {
                            self.total = Some(n);
                            Progress::Pending
                        }
                    },
                },
                ChannelEvent::Closed => {
                    self.finished = true;
                    Progress::Failed(ReceiveError::NotOpen)
                },
                _ => {
                    Progress::Pending
                },
            },
            Some(total) => match e {
                ChannelEvent::Binary(d) => {
                    let mut buf: Vec<u8> = Vec::new();
                    std::mem::swap(&mut buf, &mut self.buf);
                    let ghost before = buf@;
                    let mut i: usize = 0;
                    while i < d.len()
                        invariant
                            i <= d@.len(),
                            buf@ == before + d@.subrange(0, i as int),
                        decreases d@.len() - i,
                    {
                        buf.push(d[i]);
                        assert(buf@ =~= before + d@.subrange(0, i + 1));
                        i = i + 1;
                    }
                    assert(d@.subrange(0, d@.len() as int) =~= d@);
                    if buf.len() >= total {
                        let out = buf.clone();
                        self.buf = buf;
                        self.finished = true;
                        Progress::Complete(out)
                    } else {
                        self.buf = buf;
                        Progress::Pending
                    }
                },
                ChannelEvent::Closed => {
                    self.finished = true;
                    Progress::Failed(ReceiveError::ChannelClosed)
                },
                _ => Progress::Pending,
            },
        }
    }
}

/// A payload sent as its header and chunks is received whole: the header
/// announces its size (an empty payload completes at once), and each chunk
/// extends the buffer to the payload's next prefix, the last one completing
/// it with exactly the bytes that were sent.
pub proof fn framed_payload_round_trip(prefix: Seq<char>, data: Seq<u8>, k: int)
    requires
        data.len() <= usize::MAX,
    ensures
        receive_step(
            awaiting_header(prefix),
            ChannelEventView::Text(frame_header(prefix, data.len())),
        ) == (if data.len() == 0 {
            (
                finished(receiving(prefix, 0, Seq::empty())),
                ProgressView::Complete(Seq::<u8>::empty()),
            )
        } else {
            (receiving(prefix, data.len(), Seq::empty()), ProgressView::Pending)
        }),
        0 <= k < chunk_count(data.len()) ==> receive_step(
            receiving(prefix, data.len(), data.subrange(0, k * 16384)),
            ChannelEventView::Binary(chunk_of(data, k)),
        ) == (if k + 1 < chunk_count(data.len()) {
            (
                receiving(prefix, data.len(), data.subrange(0, (k + 1) * 16384)),
                ProgressView::Pending,
            )
        } else {
            (finished(receiving(prefix, data.len(), data)), ProgressView::Complete(data))
        }),
{
    let n = data.len();
    decimal_round_trip(n);
    let h = frame_header(prefix, n);
    assert(h.subrange(0, prefix.len() as int) =~= prefix);
    assert(h.subrange(prefix.len() as int, h.len() as int) =~= decimal(n));
    if 0 <= k < chunk_count(n) {
        let buf = data.subrange(0, k * 16384) + chunk_of(data, k);
        let end = chunk_end(n, k);
        assert(buf =~= data.subrange(0, end));
        if k + 1 < chunk_count(n) {
            assert((k + 2) * 16384 <= n + 16384 - 1) by (nonlinear_arith)
                requires
                    k + 1 < (n + 16384 - 1) / 16384,
            ;
            assert(end == (k + 1) * 16384);
        } else {
            assert(n <= (k + 1) * 16384) by (nonlinear_arith)
                requires
                    k + 1 >= (n + 16384 - 1) / 16384,
                    k >= 0,
            ;
            assert(end == n);
            assert(data.subrange(0, n as int) =~= data);
        }
    }
}

/// Feed `events` to a receiver in `r`, stopping once it has finished: its
/// final state and what it reported last.
pub open spec fn run_receiver(r: ReceiverView, events: Seq<ChannelEventView>) -> (ReceiverView, ProgressView)
    decreases events.len(),
{
    if events.len() == 0 {
        (r, ProgressView::Pending)
    } else {
        let (next, p) = receive_step(r, events[0]);
        if events.len() == 1 || next.finished {
            (next, p)
        } else {
            run_receiver(next, events.drop_first())
        }
    }
}

/// The binary messages that carry `data`: its chunks, in order.
pub open spec fn chunk_events(data: Seq<u8>) -> Seq<ChannelEventView> {
    Seq::new(chunk_count(data.len()), |k: int| ChannelEventView::Binary(chunk_of(data, k)))
}

/// The messages a payload is sent as: its header, then its chunks.
pub open spec fn framed_events(prefix: Seq<char>, data: Seq<u8>) -> Seq<ChannelEventView> {
    seq![ChannelEventView::Text(frame_header(prefix, data.len()))] + chunk_events(data)
}

/// A receiver that has the first `k` chunks completes with the payload once
/// the remaining chunks arrive.
proof fn lemma_remaining_chunks_complete(prefix: Seq<char>, data: Seq<u8>, k: int)
    requires
        data.len() <= usize::MAX,
        0 <= k < chunk_count(data.len()),
    ensures
        run_receiver(
            receiving(prefix, data.len(), data.subrange(0, k * 16384)),
            chunk_events(data).subrange(k, chunk_count(data.len()) as int),
        ) == (finished(receiving(prefix, data.len(), data)), ProgressView::Complete(data)),
    decreases chunk_count(data.len()) - k,
{
    let count = chunk_count(data.len()) as int;
    let rest = chunk_events(data).subrange(k, count);
    framed_payload_round_trip(prefix, data, k);
    assert(rest[0] == ChannelEventView::Binary(chunk_of(data, k)));
    if k + 1 < count {
        lemma_remaining_chunks_complete(prefix, data, k + 1);
        assert(rest.drop_first() =~= chunk_events(data).subrange(k + 1, count));
    }
}

/// What the client receives is what the server sent: feeding a fresh
/// receiver the header and the chunks of a payload completes it with
/// exactly that payload.
pub proof fn framed_payload_is_received_whole(prefix: Seq<char>, data: Seq<u8>)
    requires
        data.len() <= usize::MAX,
    ensures
        run_receiver(awaiting_header(prefix), framed_events(prefix, data)).1 == ProgressView::Complete(
            data,
        ),
{
    let events = framed_events(prefix, data);
    framed_payload_round_trip(prefix, data, 0);
    assert(events[0] == ChannelEventView::Text(frame_header(prefix, data.len())));
    if data.len() > 0 {
        assert(chunk_count(data.len()) >= 1) by (nonlinear_arith)
            requires
                data.len() > 0,
                chunk_count(data.len()) == (data.len() + 16384 - 1) / 16384,
        ;
        lemma_remaining_chunks_complete(prefix, data, 0);
        assert(events.drop_first() =~= chunk_events(data).subrange(0, chunk_count(data.len()) as int));
        assert(data.subrange(0, 0) =~= Seq::<u8>::empty());
    } else {
        assert(data =~= Seq::<u8>::empty());
    }
}

/// A channel that closes before any header arrives was never opened by the
/// peer: the receiver reports it as not open, also after text messages that
/// are not its header.
pub proof fn closed_before_header_is_not_open(prefix: Seq<char>, others: Seq<Seq<char>>)
    requires
        forall|i: int| 0 <= i < others.len() ==> header_size(prefix, #[trigger] others[i]) is None,
    ensures
        run_receiver(
            awaiting_header(prefix),
            others.map_values(|t: Seq<char>| ChannelEventView::Text(t)).push(ChannelEventView::Closed),
        ).1 == ProgressView::Failed(ReceiveErrorView::NotOpen),
    decreases others.len(),
{
    let events = others.map_values(|t: Seq<char>| ChannelEventView::Text(t)).push(
        ChannelEventView::Closed,
    );
    if others.len() > 0 {
        assert(events[0] == ChannelEventView::Text(others[0]));
        closed_before_header_is_not_open(prefix, others.drop_first());
        assert(events.drop_first() =~= others.drop_first().map_values(
            |t: Seq<char>| ChannelEventView::Text(t),
        ).push(ChannelEventView::Closed));
    }
}

} // verus!
