//! The client's in-memory log: a bounded buffer of recent structured log
//! lines, so the webview can backfill its logs panel on load.
use vstd::prelude::*;
use std::collections::VecDeque;

verus! {

/// Maximum number of log lines retained.
pub const MAX_LOGS: usize = 500;

/// A single structured log entry, surfaced to the webview's logs panel.
#[derive(Debug)]
pub struct LogEvent {
    pub level: String,
    pub source: String,
    pub message: String,
}

impl View for LogEvent {
    type V = (Seq<char>, Seq<char>, Seq<char>);

    open spec fn view(&self) -> (Seq<char>, Seq<char>, Seq<char>) {
        (self.level@, self.source@, self.message@)
    }
}

impl Clone for LogEvent {
    fn clone(&self) -> (r: Self)
        ensures
            r@ == self@,
    {
        LogEvent { level: self.level.clone(), source: self.source.clone(), message: self.message.clone() }
    }
}

/// The newest `MAX_LOGS` entries of `s`.
pub open spec fn newest(s: Seq<(Seq<char>, Seq<char>, Seq<char>)>) -> Seq<
    (Seq<char>, Seq<char>, Seq<char>),
> {
    if s.len() > MAX_LOGS {
        s.subrange(s.len() - MAX_LOGS, s.len() as int)
    } else {
        s
    }
}

/// A ring buffer of the most recent log lines, oldest first.
pub struct LogBuffer {
    logs: VecDeque<LogEvent>,
}

impl View for LogBuffer {
    type V = Seq<(Seq<char>, Seq<char>, Seq<char>)>;

    closed spec fn view(&self) -> Seq<(Seq<char>, Seq<char>, Seq<char>)> {
        self.logs@.map_values(|e: LogEvent| e@)
    }
}

impl LogBuffer {
    /// An empty buffer.
    pub fn new() -> (b: Self)
        ensures
            b@.len() == 0,
    {
        let b = LogBuffer { logs: VecDeque::new() };
        assert(b@ =~= Seq::<(Seq<char>, Seq<char>, Seq<char>)>::empty());
        b
    }

    /// Record an entry, dropping the oldest ones beyond `MAX_LOGS`.
    pub fn push(&mut self, e: LogEvent)
        ensures
            final(self)@ == newest(old(self)@.push(e@)),
    {
        let ghost all = old(self)@.push(e@);
        self.logs.push_back(e);
        assert(self@ =~= all);
        let ghost dropped: int = 0;
        while self.logs.len() > MAX_LOGS
            invariant
                0 <= dropped <= all.len(),
                self@ == all.subrange(dropped, all.len() as int),
                dropped > 0 ==> self@.len() >= MAX_LOGS,
            decreases self.logs@.len(),
        {
            let ghost before = self.logs@;
            let ghost bv = self@;
            let _ = self.logs.pop_front();
            assert(self.logs@ =~= before.drop_first());
            assert(self@ =~= bv.drop_first());
            proof {
                dropped = dropped + 1;
            }
            assert(self@ =~= all.subrange(dropped, all.len() as int));
        }
        assert(self@ =~= newest(all));
    }

    /// The buffered entries, oldest first.
    pub fn entries(&self) -> (v: Vec<LogEvent>)
        ensures
            v@.map_values(|e: LogEvent| e@) == self@,
    {
        let mut v: Vec<LogEvent> = Vec::new();
        let n = self.logs.len();
        for i in 0..n
            invariant
                n == self.logs@.len(),
                v@.len() == i,
                forall|j: int| 0 <= j < i ==> #[trigger] v@[j]@ == self.logs@[j]@,
        {
            v.push(self.logs[i].clone());
        }
        assert(v@.map_values(|e: LogEvent| e@) =~= self@);
        v
    }

    /// How many entries are buffered.
    pub fn len(&self) -> (n: usize)
        ensures
            n == self@.len(),
    {
        self.logs.len()
    }
}

/// The buffer never holds more than `MAX_LOGS` entries, and it always holds
/// the newest ones in the order they were recorded.
pub proof fn log_buffer_is_bounded(s: Seq<(Seq<char>, Seq<char>, Seq<char>)>, e: (Seq<char>, Seq<char>, Seq<char>))
    ensures
        newest(s.push(e)).len() <= MAX_LOGS,
        newest(s.push(e)).last() == e,
        s.len() < MAX_LOGS ==> newest(s.push(e)) == s.push(e),
{
}

} // verus!
