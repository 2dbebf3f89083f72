//! One voice-loop turn: the agent loop that decides, reply by reply, whether
//! to query the model again, run a web search, or hand the final answer to
//! speech synthesis.
//!
//! The pipeline is **stateless** across turns: the caller owns the
//! conversation history and passes the full message list on every turn.
//! Within a turn, the model is offered a `web_search` tool; if it requests a
//! search, the search runs, its results are fed back as a `tool` message, and
//! the model is queried again. The loop is bounded ([`MAX_TOOL_ROUNDS`]) to
//! prevent runaway tool-calling.
//!
//! [`AgentTurn`] holds the decisions; the server's transport performs each
//! [`AgentAction`] (a chat request, a search) and reports the outcome back.
use vstd::prelude::*;
use crate::server::cognition::{
    calls_view, messages_view, plain_message, ChatMessage, ChatMessageView, ChatReply,
    JsonArgument, JsonArgumentView, ToolArguments, ToolArgumentsView, ToolCall, ToolCallView,
};
use crate::server::web_search::SearchResult;
use crate::text::{decimal, push_decimal, trim};
use vstd::string::StringExecFns;

verus! {

/// Maximum number of chat rounds per turn before giving up.
pub const MAX_TOOL_ROUNDS: usize = 3;

/// The system prompt that frames Skye's persona and her tool use.
pub const SYSTEM_PROMPT: &'static str = "You are Skye, a warm, sharp voice assistant. You answer conversationally and concisely, in a way that sounds natural when spoken aloud. Your training data has a knowledge cutoff of mid-2024. You have a `web_search` tool that gives you live, up-to-date information from the web.\n\nUse `web_search` whenever the user asks for anything time-sensitive or after your cutoff \u{2014} for example: \"What is the latest weather report for...\", \"What is the current price of...\", \"What are the latest news briefs about...\", or any question about recent events, current conditions, or facts you are not certain about. In these cases, go straight to `web_search` and answer from the results. Never say \"I do not have up-to-date information\" or \"I don't know\" when the answer is available via web search \u{2014} search instead.\n\nFor everything else, answer directly from what you know. Never mention the tool or the search itself \u{2014} just answer the question.";

/// The result of one pipeline turn: the assistant's reply text and its
/// synthesized WAV audio.
#[derive(Debug)]
pub struct PipelineOutput {
    /// The assistant's reply text (from cognition).
    pub reply: String,
    /// The full WAV stream for `reply`.
    pub audio: Vec<u8>,
    /// The ARKit blendshape track (NDJSON) for `reply`, or `None` if A2F is
    /// disabled or failed. The avatar degrades to audio-only when `None`.
    pub blendshapes: Option<String>,
}

/// The query of a `query` entry among argument-object entries: its text when
/// the value is a JSON string, empty otherwise or when there is no such entry.
pub open spec fn query_in(entries: Seq<(Seq<char>, JsonArgumentView)>) -> Seq<char>
    decreases entries.len(),
{
    if entries.len() == 0 {
        Seq::empty()
    } else if entries[0].0 == "query"@ {
        match entries[0].1 {
            JsonArgumentView::Text(s) => s,
            JsonArgumentView::Other(_) => Seq::empty(),
        }
    } else {
        query_in(entries.drop_first())
    }
}

/// The search query of a tool call's arguments, tolerating both object
/// (`{"query": "..."}`) and string (`"..."`) encodings.
pub open spec fn query_of(args: ToolArgumentsView) -> Seq<char> {
    match args {
        ToolArgumentsView::Object(entries) => query_in(entries),
        ToolArgumentsView::Text(s) => s,
        ToolArgumentsView::Other(_) => Seq::empty(),
    }
}

/// Extract the search query from a tool call's arguments, tolerating both
/// object (`{"query": "..."}`) and string (`"..."`) argument encodings.
pub fn extract_query(call: &ToolCall) -> (q: String)
    ensures
        q@ == query_of(call@.arguments),
{
    match &call.function.arguments {
        ToolArguments::Object(entries) => {
            let key = "query".to_owned();
            let mut i: usize = 0;
            let ghost all = match call@.arguments {
                ToolArgumentsView::Object(es) => es,
                _ => Seq::empty(),
            };
            assert(all.subrange(0, all.len() as int) =~= all);
            while i < entries.len()
                invariant
                    i <= entries@.len(),
                    key@ == "query"@,
                    all.len() == entries@.len(),
                    forall|j: int| 0 <= j < all.len() ==> #[trigger] all[j] == entries@[j]@,
                    query_of(call@.arguments) == query_in(all),
                    query_in(all) == query_in(all.subrange(i as int, all.len() as int)),
                decreases entries@.len() - i,
            {
                let ghost rest = all.subrange(i as int, all.len() as int);
                assert(rest[0] == entries@[i as int]@);
                if entries[i].key == key {
                    assert(rest[0].0 == "query"@);
                    assert(query_in(rest) == match rest[0].1 {
                        JsonArgumentView::Text(s) => s,
                        JsonArgumentView::Other(_) => Seq::<char>::empty(),
                    });
                    let e = &entries[i];
                    assert(e@ == rest[0]);
                    return match &e.value {
                        JsonArgument::Text(s) => {
                            assert(query_in(all) == s@);
                            s.clone()
                        },
                        JsonArgument::Other(_) => String::new(),
                    };
                }
                assert(rest.drop_first() =~= all.subrange(i + 1, all.len() as int));
                i = i + 1;
            }
            String::new()
        },
        ToolArguments::Text(s) => s.clone(),
        ToolArguments::Other(_) => String::new(),
    }
}

/// The text block for one search result: `[i] title`, the URL and the
/// snippet, one per line.
pub open spec fn result_entry(i: nat, r: (Seq<char>, Seq<char>, Seq<char>)) -> Seq<char> {
    "["@ + decimal(i) + "] "@ + r.0 + "\n"@ + r.1 + "\n"@ + r.2
}

/// The first `n` result entries, separated by blank lines.
pub open spec fn rendered_results(rs: Seq<(Seq<char>, Seq<char>, Seq<char>)>, n: nat) -> Seq<char>
    decreases n,
{
    if n == 0 {
        Seq::empty()
    } else if n == 1 {
        result_entry(0, rs[0])
    } else {
        rendered_results(rs, (n - 1) as nat) + "\n\n"@ + result_entry((n - 1) as nat, rs[n - 1])
    }
}

/// Search results rendered as a compact text block for the model to read.
pub open spec fn search_results_text(rs: Seq<(Seq<char>, Seq<char>, Seq<char>)>) -> Seq<char> {
    if rs.len() == 0 {
        "No results found."@
    } else {
        rendered_results(rs, rs.len())
    }
}

/// The views of a sequence of search results.
pub open spec fn results_view(rs: Seq<SearchResult>) -> Seq<(Seq<char>, Seq<char>, Seq<char>)> {
    rs.map_values(|r: SearchResult| r@)
}

/// Render search results as a compact text block for the model to read.
pub fn format_search_results(results: &[SearchResult]) -> (s: String)
    ensures
        s@ == search_results_text(results_view(results@)),
{
    let n = results.len();
    if n == 0 {
        return "No results found.".to_owned();
    }
    let ghost rs = results_view(results@);
    let mut out = String::new();
    for i in 0..n
        invariant
            n == results@.len(),
            n > 0,
            rs == results_view(results@),
            out@ == rendered_results(rs, i as nat),
    {
        if i > 0 {
            out.append("\n\n");
        }
        out.append("[");
        push_decimal(&mut out, i);
        out.append("] ");
        out.append(results[i].title.as_str());
        out.append("\n");
        out.append(results[i].url.as_str());
        out.append("\n");
        out.append(results[i].snippet.as_str());
        assert(rs[i as int] == results@[i as int]@);
        if i == 0 {
            assert(out@ =~= rendered_results(rs, 1));
        } else {
            assert(out@ =~= rendered_results(rs, (i + 1) as nat));
        }
    }
    out
}

/// What the agent loop asks for next.
#[derive(Debug)]
pub enum AgentAction {
    /// Query the model with the working conversation (offering the
    /// `web_search` tool).
    Chat,
    /// Run a web search for this query and report the results.
    Search(String),
    /// The turn is over: synthesize and send this reply.
    Respond(String),
    /// The turn is over without a final answer.
    NoReply,
}

/// The view of an action.
pub enum AgentActionView {
    Chat,
    Search(Seq<char>),
    Respond(Seq<char>),
    NoReply,
}

impl View for AgentAction {
    type V = AgentActionView;

    open spec fn view(&self) -> AgentActionView {
        match self {
            AgentAction::Chat => AgentActionView::Chat,
            AgentAction::Search(q) => AgentActionView::Search(q@),
            AgentAction::Respond(r) => AgentActionView::Respond(r@),
            AgentAction::NoReply => AgentActionView::NoReply,
        }
    }
}

/// What the agent loop waits for.
#[derive(Debug, Clone, Copy, PartialEq, Eq, Structural)]
pub enum Awaiting {
    /// The reply of the chat request it asked for.
    ChatReply,
    /// The results of the search it asked for.
    SearchResults,
    /// Nothing: the turn is over.
    Nothing,
}

/// The state of a turn: the working conversation, the number of chat
/// replies received, the tool calls of the latest reply and how many of them
/// have been handled, and what the loop waits for.
pub struct AgentView {
    pub working: Seq<ChatMessageView>,
    pub rounds: nat,
    pub calls: Seq<ToolCallView>,
    pub next_call: nat,
    pub awaiting: Awaiting,
}

/// The state after handling the remaining tool calls of the latest reply:
/// calls other than `web_search` are skipped; the first `web_search` call
/// becomes a search; with none left, the model is queried again while rounds
/// remain, and the turn ends without a reply otherwise.
pub open spec fn handle_calls(v: AgentView) -> (AgentView, AgentActionView)
    decreases v.calls.len() - v.next_call,
{
    if v.next_call < v.calls.len() {
        let call = v.calls[v.next_call as int];
        let moved = AgentView { next_call: v.next_call + 1, ..v };
        if call.name == "web_search"@ {
            (
                AgentView { awaiting: Awaiting::SearchResults, ..moved },
                AgentActionView::Search(query_of(call.arguments)),
            )
        } else {
            handle_calls(moved)
        }
    } else if v.rounds < MAX_TOOL_ROUNDS {
        (AgentView { awaiting: Awaiting::ChatReply, ..v }, AgentActionView::Chat)
    } else {
        (AgentView { awaiting: Awaiting::Nothing, ..v }, AgentActionView::NoReply)
    }
}

/// The turn's state after a chat reply with `content` and `calls`: a reply
/// without tool calls ends the turn (with no reply when its text is blank);
/// otherwise the assistant's tool-call request is recorded and its calls are
/// handled.
pub open spec fn after_chat_reply(v: AgentView, content: Seq<char>, calls: Seq<ToolCallView>) -> (
    AgentView,
    AgentActionView,
) {
    let counted = AgentView { rounds: v.rounds + 1, ..v };
    if calls.len() == 0 {
        (
            AgentView { awaiting: Awaiting::Nothing, ..counted },
            if trim(content).len() == 0 {
                AgentActionView::NoReply
            } else {
                AgentActionView::Respond(content)
            },
        )
    } else {
        handle_calls(
            AgentView {
                working: v.working.push(
                    ChatMessageView { role: "assistant"@, content, tool_calls: Some(calls) },
                ),
                calls,
                next_call: 0,
                ..counted
            },
        )
    }
}

/// The turn's state after the results of the requested search: they are
/// recorded as a `tool` message and the remaining tool calls are handled.
pub open spec fn after_search_results(v: AgentView, text: Seq<char>) -> (AgentView, AgentActionView) {
    handle_calls(AgentView { working: v.working.push(plain_message("tool"@, text)), ..v })
}

/// Handling tool calls leaves the working conversation and the round count
/// as they are; only a chat request is asked for while rounds remain.
proof fn lemma_handle_calls_keeps_the_conversation(v: AgentView)
    ensures
        handle_calls(v).0.working == v.working,
        handle_calls(v).0.rounds == v.rounds,
        handle_calls(v).1 is Chat ==> v.rounds < MAX_TOOL_ROUNDS,
        handle_calls(v).1 is Chat <==> handle_calls(v).0.awaiting == Awaiting::ChatReply,
    decreases v.calls.len() - v.next_call,
{
    if v.next_call < v.calls.len() {
        let moved = AgentView { next_call: v.next_call + 1, ..v };
        if v.calls[v.next_call as int].name != "web_search"@ {
            lemma_handle_calls_keeps_the_conversation(moved);
        }
    }
}

/// What the turn waited for before its tool calls are handled does not
/// matter: handling them decides what it waits for next.
proof fn lemma_handle_calls_sets_awaiting(v: AgentView, a: Awaiting)
    ensures
        handle_calls(AgentView { awaiting: a, ..v }) == handle_calls(v),
    decreases v.calls.len() - v.next_call,
{
    if v.next_call < v.calls.len() {
        let moved = AgentView { next_call: v.next_call + 1, ..v };
        lemma_handle_calls_sets_awaiting(moved, a);
        assert(AgentView { next_call: v.next_call + 1, ..AgentView { awaiting: a, ..v } }
            == AgentView { awaiting: a, ..moved });
    }
}

/// The working conversation only grows within a turn: each chat reply with
/// tool calls appends the assistant's request, each search appends its
/// results as a `tool` message, and nothing already in it changes (the
/// system prompt and the caller's history stay first).
pub proof fn working_conversation_only_grows(v: AgentView, content: Seq<char>, calls: Seq<ToolCallView>, text: Seq<char>)
    ensures
        after_chat_reply(v, content, calls).0.working == (if calls.len() == 0 {
            v.working
        } else {
            v.working.push(ChatMessageView { role: "assistant"@, content, tool_calls: Some(calls) })
        }),
        after_search_results(v, text).0.working == v.working.push(plain_message("tool"@, text)),
{
    let counted = AgentView { rounds: v.rounds + 1, ..v };
    if calls.len() > 0 {
        lemma_handle_calls_keeps_the_conversation(
            AgentView {
                working: v.working.push(
                    ChatMessageView { role: "assistant"@, content, tool_calls: Some(calls) },
                ),
                calls,
                next_call: 0,
                ..counted
            },
        );
    }
    lemma_handle_calls_keeps_the_conversation(
        AgentView { working: v.working.push(plain_message("tool"@, text)), ..v },
    );
}

/// The agent loop is bounded: every chat reply counts one round, a search
/// counts none, and the model is queried again only while fewer than
/// [`MAX_TOOL_ROUNDS`] replies have arrived, so a turn makes at most
/// [`MAX_TOOL_ROUNDS`] chat requests.
pub proof fn chat_requests_are_bounded(v: AgentView, content: Seq<char>, calls: Seq<ToolCallView>, text: Seq<char>)
    requires
        v.well_formed(),
    ensures
        after_chat_reply(v, content, calls).0.rounds == v.rounds + 1,
        after_chat_reply(v, content, calls).1 is Chat ==> v.rounds + 1 < MAX_TOOL_ROUNDS,
        after_search_results(v, text).0.rounds == v.rounds,
        after_search_results(v, text).1 is Chat ==> v.rounds < MAX_TOOL_ROUNDS,
{
    let counted = AgentView { rounds: v.rounds + 1, ..v };
    if calls.len() > 0 {
        lemma_handle_calls_keeps_the_conversation(
            AgentView {
                working: v.working.push(
                    ChatMessageView { role: "assistant"@, content, tool_calls: Some(calls) },
                ),
                calls,
                next_call: 0,
                ..counted
            },
        );
    }
    lemma_handle_calls_keeps_the_conversation(
        AgentView { working: v.working.push(plain_message("tool"@, text)), ..v },
    );
}

/// The queries of the `web_search` calls among `calls`, in order (calls to
/// other tools contribute nothing).
pub open spec fn web_search_queries(calls: Seq<ToolCallView>) -> Seq<Seq<char>>
    decreases calls.len(),
{
    if calls.len() == 0 {
        Seq::empty()
    } else if calls[0].name == "web_search"@ {
        seq![query_of(calls[0].arguments)] + web_search_queries(calls.drop_first())
    } else {
        web_search_queries(calls.drop_first())
    }
}

/// The `tool` messages that carry search results.
pub open spec fn tool_messages(texts: Seq<Seq<char>>) -> Seq<ChatMessageView> {
    texts.map_values(|t: Seq<char>| plain_message("tool"@, t))
}

/// Starting from action `a` in state `v`, feed the results `texts` of the
/// searches asked for, one after the other: the final state and every action
/// asked for along the way (`a` first).
pub open spec fn feed_search_results(v: AgentView, a: AgentActionView, texts: Seq<Seq<char>>) -> (
    AgentView,
    Seq<AgentActionView>,
)
    decreases texts.len(),
{
    if texts.len() == 0 {
        (v, seq![a])
    } else {
        let next = after_search_results(v, texts[0]);
        let rest = feed_search_results(next.0, next.1, texts.drop_first());
        (rest.0, seq![a] + rest.1)
    }
}

/// What the turn asks for once a reply's tool calls are all handled: another
/// chat while rounds remain, none otherwise.
pub open spec fn after_all_calls(rounds: nat) -> AgentActionView {
    if rounds < MAX_TOOL_ROUNDS {
        AgentActionView::Chat
    } else {
        AgentActionView::NoReply
    }
}

/// Handling the calls from `next_call` asks for the first remaining
/// `web_search` and moves past exactly that call, or, with none left, for
/// what comes after all calls.
proof fn lemma_handle_calls_takes_the_next_search(v: AgentView)
    requires
        v.next_call <= v.calls.len(),
    ensures
        ({
            let h = handle_calls(v);
            let q = web_search_queries(v.calls.subrange(v.next_call as int, v.calls.len() as int));
            &&& h.0.calls == v.calls
            &&& h.0.working == v.working
            &&& h.0.rounds == v.rounds
            &&& h.0.next_call <= v.calls.len()
            &&& q.len() > 0 ==> h.1 == AgentActionView::Search(q[0]) && h.0.awaiting
                == Awaiting::SearchResults && web_search_queries(
                v.calls.subrange(h.0.next_call as int, v.calls.len() as int),
            ) == q.drop_first()
            &&& q.len() == 0 ==> h.1 == after_all_calls(v.rounds)
        }),
    decreases v.calls.len() - v.next_call,
{
    let n = v.calls.len() as int;
    let i = v.next_call as int;
    let sub = v.calls.subrange(i, n);
    if i < n {
        assert(sub[0] == v.calls[i]);
        assert(sub.drop_first() =~= v.calls.subrange(i + 1, n));
        let moved = AgentView { next_call: v.next_call + 1, ..v };
        if v.calls[i].name == "web_search"@ {
            assert(web_search_queries(sub) == seq![query_of(v.calls[i].arguments)]
                + web_search_queries(sub.drop_first()));
            assert((seq![query_of(v.calls[i].arguments)] + web_search_queries(
                sub.drop_first(),
            )).drop_first() =~= web_search_queries(sub.drop_first()));
        } else {
            lemma_handle_calls_takes_the_next_search(moved);
        }
    } else {
        assert(sub =~= Seq::<ToolCallView>::empty());
    }
}

/// Feeding the results of every remaining search, one per search asked for,
/// runs exactly the remaining `web_search` calls in order, records each
/// result as a `tool` message, and ends with what comes after all calls.
proof fn lemma_remaining_searches_run(v: AgentView, texts: Seq<Seq<char>>)
    requires
        v.next_call <= v.calls.len(),
        texts.len() == web_search_queries(
            v.calls.subrange(v.next_call as int, v.calls.len() as int),
        ).len(),
    ensures
        ({
            let h = handle_calls(v);
            let r = feed_search_results(h.0, h.1, texts);
            let q = web_search_queries(v.calls.subrange(v.next_call as int, v.calls.len() as int));
            &&& r.1.len() == q.len() + 1
            &&& forall|j: int| 0 <= j < q.len() ==> r.1[j] == AgentActionView::Search(q[j])
            &&& r.1[q.len() as int] == after_all_calls(v.rounds)
            &&& r.0.working == v.working + tool_messages(texts)
        }),
    decreases texts.len(),
{
    lemma_handle_calls_takes_the_next_search(v);
    let h = handle_calls(v);
    let q = web_search_queries(v.calls.subrange(v.next_call as int, v.calls.len() as int));
    if q.len() == 0 {
        assert(tool_messages(texts) =~= Seq::<ChatMessageView>::empty());
        assert(v.working + tool_messages(texts) =~= v.working);
    } else {
        let v2 = AgentView { working: h.0.working.push(plain_message("tool"@, texts[0])), ..h.0 };
        let next = after_search_results(h.0, texts[0]);
        assert(next == handle_calls(v2));
        lemma_remaining_searches_run(v2, texts.drop_first());
        let r2 = feed_search_results(next.0, next.1, texts.drop_first());
        let r = feed_search_results(h.0, h.1, texts);
        assert(r.1 == seq![h.1] + r2.1);
        assert forall|j: int| 0 <= j < q.len() implies r.1[j] == AgentActionView::Search(q[j]) by {
            if j > 0 {
                assert(r.1[j] == r2.1[j - 1]);
                assert(q.drop_first()[j - 1] == q[j]);
            }
        }
        assert(r.1[q.len() as int] == r2.1[q.len() - 1]);
        assert(tool_messages(texts) =~= seq![plain_message("tool"@, texts[0])] + tool_messages(
            texts.drop_first(),
        ));
        assert(v.working + tool_messages(texts) =~= v.working.push(plain_message("tool"@, texts[0]))
            + tool_messages(texts.drop_first()));
    }
}

/// Every `web_search` call of a reply runs: after a chat reply with tool
/// calls, the turn asks for exactly the searches of its `web_search` calls,
/// in order and with their queries, one per result fed back, records the
/// assistant's request and then each result as a `tool` message, and only
/// then asks for another chat (or gives up once the rounds are used).
pub proof fn every_web_search_of_a_reply_runs(
    v: AgentView,
    content: Seq<char>,
    calls: Seq<ToolCallView>,
    texts: Seq<Seq<char>>,
)
    requires
        calls.len() > 0,
        texts.len() == web_search_queries(calls).len(),
    ensures
        ({
            let first = after_chat_reply(v, content, calls);
            let r = feed_search_results(first.0, first.1, texts);
            let q = web_search_queries(calls);
            &&& r.1.len() == q.len() + 1
            &&& forall|j: int| 0 <= j < q.len() ==> r.1[j] == AgentActionView::Search(q[j])
            &&& r.1[q.len() as int] == after_all_calls(v.rounds + 1)
            &&& r.0.working == v.working.push(
                ChatMessageView { role: "assistant"@, content, tool_calls: Some(calls) },
            ) + tool_messages(texts)
        }),
{
    let start = AgentView {
        working: v.working.push(
            ChatMessageView { role: "assistant"@, content, tool_calls: Some(calls) },
        ),
        calls,
        next_call: 0,
        rounds: v.rounds + 1,
        ..v
    };
    assert(calls.subrange(0, calls.len() as int) =~= calls);
    lemma_remaining_searches_run(start, texts);
}

/// The state of one pipeline turn.
pub struct AgentTurn {
    working: Vec<ChatMessage>,
    rounds: usize,
    calls: Vec<ToolCall>,
    next_call: usize,
    awaiting: Awaiting,
}

impl View for AgentTurn {
    type V = AgentView;

    closed spec fn view(&self) -> AgentView {
        AgentView {
            working: messages_view(self.working@),
            rounds: self.rounds as nat,
            calls: calls_view(self.calls@),
            next_call: self.next_call as nat,
            awaiting: self.awaiting,
        }
    }
}

impl AgentView {
    /// The loop's bookkeeping is consistent: at most [`MAX_TOOL_ROUNDS`]
    /// chat replies, a chat request only while rounds remain, and the handled
    /// calls within the latest reply's calls.
    pub open spec fn well_formed(self) -> bool {
        &&& self.rounds <= MAX_TOOL_ROUNDS
        &&& self.awaiting == Awaiting::ChatReply ==> self.rounds < MAX_TOOL_ROUNDS
        &&& self.next_call <= self.calls.len()
    }
}

impl AgentTurn {
    /// Every turn keeps its bookkeeping consistent (see
    /// [`AgentView::well_formed`]).
    #[verifier::type_invariant]
    spec fn bookkeeping_is_consistent(self) -> bool {
        self@.well_formed()
    }

    /// Start a turn on `history` (the full conversation, including the
    /// just-added user message): the working conversation is the system
    /// prompt followed by the history, and the model is queried first.
    pub fn start(history: &[ChatMessage]) -> (r: (AgentTurn, AgentAction))
        ensures
            r.0@.working == seq![plain_message("system"@, SYSTEM_PROMPT@)] + messages_view(
                history@,
            ),
            r.0@.rounds == 0,
            r.0@.calls.len() == 0,
            r.0@.awaiting == Awaiting::ChatReply,
            r.0@.well_formed(),
            r.1@ == AgentActionView::Chat,
    {
        let mut working: Vec<ChatMessage> = Vec::new();
        working.push(ChatMessage::system(SYSTEM_PROMPT));
        for i in 0..history.len()
            invariant
                messages_view(working@) == seq![plain_message("system"@, SYSTEM_PROMPT@)]
                    + messages_view(history@.subrange(0, i as int)),
        {
            let m = history[i].clone();
            let ghost before = working@;
            working.push(m);
            assert(messages_view(working@) =~= messages_view(before).push(m@));
            assert(messages_view(history@.subrange(0, i + 1)) =~= messages_view(
                history@.subrange(0, i as int),
            ).push(history@[i as int]@));
            assert(messages_view(working@) =~= seq![plain_message("system"@, SYSTEM_PROMPT@)]
                + messages_view(history@.subrange(0, i + 1)));
        }
        assert(history@.subrange(0, history@.len() as int) =~= history@);
        let turn = AgentTurn {
            working,
            rounds: 0,
            calls: Vec::new(),
            next_call: 0,
            awaiting: Awaiting::ChatReply,
        };
        assert(calls_view(turn.calls@) =~= Seq::<ToolCallView>::empty());
        (turn, AgentAction::Chat)
    }

    /// The working conversation, to send with the next chat request.
    pub fn working(&self) -> (w: &Vec<ChatMessage>)
        ensures
            messages_view(w@) == self@.working,
    {
        &self.working
    }

    /// What the turn waits for.
    pub fn awaiting(&self) -> (a: Awaiting)
        ensures
            a == self@.awaiting,
    {
        self.awaiting
    }

    /// Append a message to the working conversation.
    fn push_working(&mut self, m: ChatMessage)
        ensures
            final(self)@ == (AgentView { working: old(self)@.working.push(m@), ..old(self)@ }),
    {
        proof {
            use_type_invariant(&*self);
        }
        let mut w: Vec<ChatMessage> = Vec::new();
        std::mem::swap(&mut w, &mut self.working);
        w.push(m);
        self.working = w;
        assert(messages_view(self.working@) =~= messages_view(old(self).working@).push(m@));
    }

    /// Handle the remaining tool calls (see [`handle_calls`]).
    fn handle_calls(&mut self) -> (a: AgentAction)
        ensures
            (final(self)@, a@) == handle_calls(old(self)@),
            final(self)@.well_formed(),
        decreases old(self)@.calls.len() - old(self)@.next_call,
    {
        proof {
            use_type_invariant(&*self);
        }
        if self.next_call < self.calls.len() {
            let i = self.next_call;
            let is_search = {
                let name = self.calls[i].function.name.clone();
                name == "web_search".to_owned()
            };
            if is_search {
                let q = extract_query(&self.calls[i]);
                self.next_call = i + 1;
                self.awaiting = Awaiting::SearchResults;
                AgentAction::Search(q)
            } else {
                self.next_call = i + 1;
                self.handle_calls()
            }
        } else if self.rounds < MAX_TOOL_ROUNDS {
            self.awaiting = Awaiting::ChatReply;
            AgentAction::Chat
        } else {
            self.awaiting = Awaiting::Nothing;
            AgentAction::NoReply
        }
    }

    /// Feed the reply of the chat request the turn asked for.
    pub fn on_chat_reply(&mut self, reply: ChatReply) -> (a: AgentAction)
        requires
            old(self)@.awaiting == Awaiting::ChatReply,
        ensures
            final(self)@.well_formed(),
            (final(self)@, a@) == after_chat_reply(
                old(self)@,
                reply.content@,
                calls_view(reply.tool_calls@),
            ),
    {
        proof {
            use_type_invariant(&*self);
        }
        let ChatReply { content, tool_calls } = reply;
        self.awaiting = Awaiting::Nothing;
        self.rounds = self.rounds + 1;
        if tool_calls.len() == 0 {
            return match crate::server::cognition::nonempty_reply(content) {
                Some(c) => AgentAction::Respond(c),
                None => AgentAction::NoReply,
            };
        }
        let copy = tool_calls.clone();
        assert forall|i: int| 0 <= i < copy@.len() implies copy@[i]@ == tool_calls@[i]@ by {
            assert(cloned::<ToolCall>(tool_calls[i], copy[i]));
        }
        assert(calls_view(copy@) =~= calls_view(tool_calls@));
        let message = ChatMessage::assistant_with_tool_calls(content.as_str(), copy);
        self.push_working(message);
        self.next_call = 0;
        self.calls = tool_calls;
        proof {
            lemma_handle_calls_sets_awaiting(self@, Awaiting::ChatReply);
        }
        self.handle_calls()
    }

    /// Feed the results of the search the turn asked for.
    pub fn on_search_results(&mut self, results: &[SearchResult]) -> (a: AgentAction)
        requires
            old(self)@.awaiting == Awaiting::SearchResults,
        ensures
            final(self)@.well_formed(),
            (final(self)@, a@) == after_search_results(
                old(self)@,
                search_results_text(results_view(results@)),
            ),
    {
        proof {
            use_type_invariant(&*self);
        }
        let text = format_search_results(results);
        let message = ChatMessage::tool(text.as_str());
        self.push_working(message);
        self.handle_calls()
    }
}

} // verus!
