//! Bounded conversation memory: an ordered log of user and assistant turns
//! with their tool calls and results, two live counters (message count and a
//! crude token estimate of one token per four content bytes), and an
//! eviction policy that drops messages from the oldest end after every
//! insertion until both ceilings hold again.

use vstd::prelude::*;
use vstd::string::*;
use vstd::utf8::encode_utf8;
use std::collections::VecDeque;
use crate::shims::now_rfc3339;
use crate::textutil::{dec_rep, fmt_u64, vec_contains_str, views_of};

verus! {

#[derive(Clone, Copy, Debug, PartialEq, Eq, Structural)]
pub enum MessageRole {
    User,
    Assistant,
    System,
    Tool,
}

/// One dispatched tool call, recorded the instant it is sent.
pub struct ToolCall {
    pub id: String,
    pub tool_name: String,
    pub action: String,
    pub parameters: String,
    pub timestamp: String,
}

pub ghost struct CallRecV {
    pub id: Seq<char>,
    pub tool_name: Seq<char>,
    pub action: Seq<char>,
    pub parameters: Seq<char>,
    pub timestamp: Seq<char>,
}

impl View for ToolCall {
    type V = CallRecV;

    open spec fn view(&self) -> CallRecV {
        CallRecV {
            id: self.id@,
            tool_name: self.tool_name@,
            action: self.action@,
            parameters: self.parameters@,
            timestamp: self.timestamp@,
        }
    }
}

/// The outcome of one tool call, referencing it by id.
pub struct ToolResult {
    pub call_id: String,
    pub tool_name: String,
    pub action: String,
    pub result: String,
    pub success: bool,
    pub timestamp: String,
    pub execution_time_ms: u64,
}

pub ghost struct ResultRecV {
    pub call_id: Seq<char>,
    pub tool_name: Seq<char>,
    pub action: Seq<char>,
    pub result: Seq<char>,
    pub success: bool,
    pub timestamp: Seq<char>,
    pub execution_time_ms: u64,
}

impl View for ToolResult {
    type V = ResultRecV;

    open spec fn view(&self) -> ResultRecV {
        ResultRecV {
            call_id: self.call_id@,
            tool_name: self.tool_name@,
            action: self.action@,
            result: self.result@,
            success: self.success,
            timestamp: self.timestamp@,
            execution_time_ms: self.execution_time_ms,
        }
    }
}

/// One conversational turn.
pub struct ConversationMessage {
    pub timestamp: String,
    pub role: MessageRole,
    pub content: String,
    pub tool_calls: Option<Vec<ToolCall>>,
    pub tool_results: Option<Vec<ToolResult>>,
}

pub ghost struct MsgV {
    pub timestamp: Seq<char>,
    pub role: MessageRole,
    pub content: Seq<char>,
    pub tool_calls: Option<Seq<CallRecV>>,
    pub tool_results: Option<Seq<ResultRecV>>,
}

pub open spec fn call_rec_views(v: Seq<ToolCall>) -> Seq<CallRecV> {
    v.map_values(|c: ToolCall| c@)
}

pub open spec fn result_rec_views(v: Seq<ToolResult>) -> Seq<ResultRecV> {
    v.map_values(|r: ToolResult| r@)
}

impl View for ConversationMessage {
    type V = MsgV;

    open spec fn view(&self) -> MsgV {
        MsgV {
            timestamp: self.timestamp@,
            role: self.role,
            content: self.content@,
            tool_calls: match self.tool_calls {
                Some(v) => Some(call_rec_views(v@)),
                None => None,
            },
            tool_results: match self.tool_results {
                Some(v) => Some(result_rec_views(v@)),
                None => None,
            },
        }
    }
}

pub open spec fn msg_views(v: Seq<ConversationMessage>) -> Seq<MsgV> {
    v.map_values(|m: ConversationMessage| m@)
}

/// The token estimate of one message's content: one token per four bytes,
/// the byte length read as the machine-word length that `str::len` returns.
pub open spec fn token_estimate_of(content: Seq<char>) -> nat {
    ((encode_utf8(content).len() as usize) / 4) as nat
}

/// The token estimate of a whole log.
pub open spec fn token_sum(log: Seq<MsgV>) -> nat
    decreases log.len(),
{
    if log.len() == 0 {
        0
    } else {
        token_estimate_of(log[0].content) + token_sum(log.drop_first())
    }
}

pub proof fn lemma_token_sum_snoc(log: Seq<MsgV>, m: MsgV)
    ensures
        token_sum(log.push(m)) == token_sum(log) + token_estimate_of(m.content),
    decreases log.len(),
{
    if log.len() == 0 {
        assert(log.push(m)[0] == m);
        assert(log.push(m).drop_first() =~= Seq::<MsgV>::empty());
        assert(token_sum(Seq::<MsgV>::empty()) == 0);
    } else {
        assert(log.push(m)[0] == log[0]);
        assert(log.push(m).drop_first() =~= log.drop_first().push(m));
        lemma_token_sum_snoc(log.drop_first(), m);
    }
}

/// Token sums ignore everything but the content: updating a message in place
/// without changing its content keeps the sum.
pub proof fn lemma_token_sum_update_same_content(log: Seq<MsgV>, i: int, m: MsgV)
    requires
        0 <= i < log.len(),
        m.content == log[i].content,
    ensures
        token_sum(log.update(i, m)) == token_sum(log),
    decreases log.len(),
{
    if i == 0 {
        assert(log.update(0, m).drop_first() =~= log.drop_first());
    } else {
        assert(log.update(i, m)[0] == log[0]);
        assert(log.update(i, m).drop_first() =~= log.drop_first().update(i - 1, m));
        lemma_token_sum_update_same_content(log.drop_first(), i - 1, m);
    }
}

/// Both ceilings hold of the log.
pub open spec fn within_limits(log: Seq<MsgV>, max_messages: nat, max_tokens: nat) -> bool {
    log.len() <= max_messages && token_sum(log) <= max_tokens
}

/// Eviction: drop messages from the oldest end until both ceilings hold.
pub open spec fn evict(log: Seq<MsgV>, max_messages: nat, max_tokens: nat) -> Seq<MsgV>
    decreases log.len(),
{
    if within_limits(log, max_messages, max_tokens) || log.len() == 0 {
        log
    } else {
        evict(log.drop_first(), max_messages, max_tokens)
    }
}

/// Eviction always reaches both ceilings.
pub proof fn lemma_evict_within(log: Seq<MsgV>, max_messages: nat, max_tokens: nat)
    ensures
        within_limits(evict(log, max_messages, max_tokens), max_messages, max_tokens),
    decreases log.len(),
{
    if !(within_limits(log, max_messages, max_tokens) || log.len() == 0) {
        lemma_evict_within(log.drop_first(), max_messages, max_tokens);
    }
}

/// Eviction only removes from the oldest end: what remains is a suffix.
pub proof fn lemma_evict_suffix(log: Seq<MsgV>, max_messages: nat, max_tokens: nat)
    ensures
        exists|k: int|
            0 <= k <= log.len() && evict(log, max_messages, max_tokens) == log.skip(k),
    decreases log.len(),
{
    if within_limits(log, max_messages, max_tokens) || log.len() == 0 {
        assert(log.skip(0) =~= log);
    } else {
        lemma_evict_suffix(log.drop_first(), max_messages, max_tokens);
        let k = choose|k: int|
            0 <= k <= log.drop_first().len() && evict(
                log.drop_first(),
                max_messages,
                max_tokens,
            ) == log.drop_first().skip(k);
        assert(log.drop_first().skip(k) =~= log.skip(k + 1));
    }
}

/// The mathematical shadow of the memory.
pub ghost struct MemV {
    pub log: Seq<MsgV>,
    pub max_messages: nat,
    pub tokens: nat,
    pub max_tokens: nat,
}

/// The memory after inserting one message: push, evict, recount.
pub open spec fn after_insert(m: MemV, msg: MsgV) -> MemV {
    let log1 = evict(m.log.push(msg), m.max_messages, m.max_tokens);
    MemV { log: log1, tokens: token_sum(log1), ..m }
}

/// The memory after attaching results to the latest message, which happens
/// only when that message is an assistant turn; otherwise nothing changes.
/// Attachment replaces any results already present.
pub open spec fn after_attach(m: MemV, rs: Seq<ResultRecV>) -> MemV {
    if m.log.len() > 0 && m.log.last().role == MessageRole::Assistant {
        let updated = MsgV { tool_results: Some(rs), ..m.log.last() };
        MemV { log: m.log.update(m.log.len() - 1, updated), ..m }
    } else {
        m
    }
}

/// A memory rebuilt from a stored log: the log is kept as given — over-limit
/// logs are not re-trimmed until the next insertion — and the token counter
/// is recounted from the contents.
pub open spec fn restored(log: Seq<MsgV>, max_messages: nat, max_tokens: nat) -> MemV {
    MemV { log: log, max_messages: max_messages, tokens: token_sum(log), max_tokens: max_tokens }
}

/// A user message with the given timestamp.
pub open spec fn user_message(ts: Seq<char>, content: Seq<char>) -> MsgV {
    MsgV {
        timestamp: ts,
        role: MessageRole::User,
        content: content,
        tool_calls: None,
        tool_results: None,
    }
}

/// The view of an optional list of owned call records.
pub open spec fn opt_call_views(o: Option<Vec<ToolCall>>) -> Option<Seq<CallRecV>> {
    match o {
        Some(v) => Some(call_rec_views(v@)),
        None => None,
    }
}

/// An assistant message with the given timestamp and calls.
pub open spec fn assistant_message(
    ts: Seq<char>,
    content: Seq<char>,
    calls: Option<Seq<CallRecV>>,
) -> MsgV {
    MsgV {
        timestamp: ts,
        role: MessageRole::Assistant,
        content: content,
        tool_calls: calls,
        tool_results: None,
    }
}

/// Law: an insertion leaves the memory at or under both ceilings, and evicts
/// from the oldest end only — the retained log is a suffix of the log as
/// inserted.
pub proof fn lemma_insertion_bounded(m: MemV, msg: MsgV)
    ensures
        within_limits(after_insert(m, msg).log, m.max_messages, m.max_tokens),
        exists|k: int|
            0 <= k <= m.log.push(msg).len() && after_insert(m, msg).log == m.log.push(msg).skip(
                k,
            ),
{
    lemma_evict_within(m.log.push(msg), m.max_messages, m.max_tokens);
    lemma_evict_suffix(m.log.push(msg), m.max_messages, m.max_tokens);
}

/// Law: restoring a snapshot of the log under the same limits reproduces the
/// same memory state, message for message.
pub proof fn lemma_snapshot_restore(m: MemV)
    requires
        m.tokens == token_sum(m.log),
    ensures
        restored(m.log, m.max_messages, m.max_tokens) == m,
{
}

/// Size- and token-bounded ordered log of conversation turns.
pub struct ConversationMemory {
    messages: VecDeque<ConversationMessage>,
    max_messages: usize,
    current_context_tokens: usize,
    max_context_tokens: usize,
}

impl View for ConversationMemory {
    type V = MemV;

    closed spec fn view(&self) -> MemV {
        MemV {
            log: msg_views(self.messages@),
            max_messages: self.max_messages as nat,
            tokens: self.current_context_tokens as nat,
            max_tokens: self.max_context_tokens as nat,
        }
    }
}

impl ConversationMemory {
    /// The counter field agrees with the log it counts.
    pub open spec fn wf(&self) -> bool {
        self@.tokens == token_sum(self@.log)
    }

    pub fn new(max_messages: usize, max_context_tokens: usize) -> (r: ConversationMemory)
        ensures
            r.wf(),
            r@.log == Seq::<MsgV>::empty(),
            r@.max_messages == max_messages as nat,
            r@.max_tokens == max_context_tokens as nat,
            r@.tokens == 0,
    {
        let r = ConversationMemory {
            messages: VecDeque::new(),
            max_messages: max_messages,
            current_context_tokens: 0,
            max_context_tokens: max_context_tokens,
        };
        proof {
            assert(msg_views(r.messages@) =~= Seq::<MsgV>::empty());
        }
        r
    }

    /// Inserts a message, then evicts from the front until both ceilings
    /// hold.
    fn add_message(&mut self, message: ConversationMessage)
        requires
            old(self).wf(),
            token_sum(old(self)@.log) + token_estimate_of(message@.content) <= usize::MAX,
        ensures
            final(self).wf(),
            final(self)@ == after_insert(old(self)@, message@),
    {
        let ghost inserted = old(self)@.log.push(message@);
        let ghost maxm = self@.max_messages;
        let ghost maxt = self@.max_tokens;
        let estimated: usize = message.content.as_str().len() / 4;
        proof {
            lemma_token_sum_snoc(old(self)@.log, message@);
        }
        self.messages.push_back(message);
        self.current_context_tokens = self.current_context_tokens + estimated;
        proof {
            assert(msg_views(self.messages@) =~= inserted);
        }
        while self.messages.len() > self.max_messages || self.current_context_tokens
            > self.max_context_tokens
            invariant
                self.max_messages as nat == maxm,
                self.max_context_tokens as nat == maxt,
                self.current_context_tokens as nat == token_sum(msg_views(self.messages@)),
                evict(msg_views(self.messages@), maxm, maxt) == evict(inserted, maxm, maxt),
            decreases self.messages@.len(),
        {
            let ghost cur = msg_views(self.messages@);
            proof {
                assert(cur.len() == self.messages@.len());
                assert(!within_limits(cur, maxm, maxt));
            }
            match self.messages.pop_front() {
                Some(removed) => {
                    let removed_tokens: usize = removed.content.as_str().len() / 4;
                    proof {
                        assert(msg_views(self.messages@) =~= cur.drop_first());
                        assert(token_sum(cur) == token_estimate_of(removed@.content) + token_sum(
                            cur.drop_first(),
                        ));
                    }
                    self.current_context_tokens = self.current_context_tokens - removed_tokens;
                },
                None => {
                    proof {
                        assert(cur.len() == 0);
                        assert(false);
                    }
                },
            }
        }
        proof {
            let cur = msg_views(self.messages@);
            assert(within_limits(cur, maxm, maxt));
            assert(evict(cur, maxm, maxt) == cur);
        }
    }

    pub fn add_user_message(&mut self, content: String)
        requires
            old(self).wf(),
            token_sum(old(self)@.log) + token_estimate_of(content@) <= usize::MAX,
        ensures
            final(self).wf(),
            exists|ts: Seq<char>|
                final(self)@ == after_insert(old(self)@, #[trigger] user_message(ts, content@)),
    {
        let ts = now_rfc3339();
        let ghost tsv = ts@;
        let message = ConversationMessage {
            timestamp: ts,
            role: MessageRole::User,
            content: content,
            tool_calls: None,
            tool_results: None,
        };
        proof {
            assert(message@ == user_message(tsv, message.content@));
        }
        self.add_message(message);
        proof {
            assert(self@ == after_insert(old(self)@, user_message(tsv, content@)));
        }
    }

    pub fn add_assistant_message(&mut self, content: String, tool_calls: Option<Vec<ToolCall>>)
        requires
            old(self).wf(),
            token_sum(old(self)@.log) + token_estimate_of(content@) <= usize::MAX,
        ensures
            final(self).wf(),
            exists|ts: Seq<char>|
                final(self)@ == after_insert(
                    old(self)@,
                    #[trigger] assistant_message(ts, content@, opt_call_views(tool_calls)),
                ),
    {
        let ghost callsv: Option<Seq<CallRecV>> = match &tool_calls {
            Some(v) => Some(call_rec_views(v@)),
            None => None,
        };
        let ts = now_rfc3339();
        let ghost tsv = ts@;
        let message = ConversationMessage {
            timestamp: ts,
            role: MessageRole::Assistant,
            content: content,
            tool_calls: tool_calls,
            tool_results: None,
        };
        proof {
            assert(message@ == assistant_message(tsv, message.content@, callsv));
        }
        self.add_message(message);
        proof {
            assert(self@ == after_insert(old(self)@, assistant_message(tsv, content@, callsv)));
        }
    }

    /// Attaches results to the most recent message if it is an assistant
    /// turn; otherwise does nothing.
    pub fn add_tool_results(&mut self, results: Vec<ToolResult>)
        requires
            old(self).wf(),
        ensures
            final(self).wf(),
            final(self)@ == after_attach(old(self)@, result_rec_views(results@)),
    {
        let ghost log0 = old(self)@.log;
        match self.messages.pop_back() {
            Some(last) => {
                let is_assistant = match last.role {
                    MessageRole::Assistant => true,
                    _ => false,
                };
                if is_assistant {
                    let updated = ConversationMessage {
                        timestamp: last.timestamp,
                        role: last.role,
                        content: last.content,
                        tool_calls: last.tool_calls,
                        tool_results: Some(results),
                    };
                    proof {
                        assert(updated@ == MsgV {
                            tool_results: Some(result_rec_views(results@)),
                            ..log0.last()
                        });
                    }
                    self.messages.push_back(updated);
                    proof {
                        assert(msg_views(self.messages@) =~= log0.update(
                            log0.len() - 1,
                            MsgV { tool_results: Some(result_rec_views(results@)), ..log0.last() },
                        ));
                        lemma_token_sum_update_same_content(
                            log0,
                            log0.len() - 1,
                            MsgV { tool_results: Some(result_rec_views(results@)), ..log0.last() },
                        );
                    }
                } else {
                    self.messages.push_back(last);
                    proof {
                        assert(msg_views(self.messages@) =~= log0);
                    }
                }
            },
            None => {
                proof {
                    assert(msg_views(self.messages@) =~= log0);
                }
            },
        }
    }

    pub fn clear(&mut self)
        ensures
            final(self).wf(),
            final(self)@.log == Seq::<MsgV>::empty(),
            final(self)@.tokens == 0,
            final(self)@.max_messages == old(self)@.max_messages,
            final(self)@.max_tokens == old(self)@.max_tokens,
    {
        self.messages.clear();
        self.current_context_tokens = 0;
        proof {
            assert(msg_views(self.messages@) =~= Seq::<MsgV>::empty());
        }
    }

    pub fn message_count(&self) -> (r: usize)
        ensures
            r as nat == self@.log.len(),
    {
        self.messages.len()
    }

    pub fn context_token_count(&self) -> (r: usize)
        ensures
            r as nat == self@.tokens,
    {
        self.current_context_tokens
    }

    pub fn max_messages(&self) -> (r: usize)
        ensures
            r as nat == self@.max_messages,
    {
        self.max_messages
    }

    pub fn max_context_tokens(&self) -> (r: usize)
        ensures
            r as nat == self@.max_tokens,
    {
        self.max_context_tokens
    }

    /// Rebuilds a memory from a stored message log, keeping the log as given
    /// (no re-trim before the next insertion) and recounting the tokens.
    /// `None` exactly when the recount does not fit the counter.
    pub fn from_messages(messages: Vec<ConversationMessage>, max_messages: usize, max_context_tokens: usize) -> (r: Option<ConversationMemory>)
        ensures
            match r {
                Some(m) => {
                    &&& m.wf()
                    &&& m@ == restored(
                        msg_views(messages@),
                        max_messages as nat,
                        max_context_tokens as nat,
                    )
                },
                None => token_sum(msg_views(messages@)) > usize::MAX,
            },
    {
        let ghost logv = msg_views(messages@);
        let mut total: usize = 0;
        let mut i: usize = 0;
        proof {
            assert(logv.take(0) =~= Seq::<MsgV>::empty());
        }
        while i < messages.len()
            invariant
                logv == msg_views(messages@),
                i <= messages@.len(),
                total as nat == token_sum(logv.take(i as int)),
            decreases messages@.len() - i,
        {
            let est: usize = messages[i].content.as_str().len() / 4;
            proof {
                lemma_token_sum_snoc(logv.take(i as int), logv[i as int]);
                assert(logv.take(i as int).push(logv[i as int]) =~= logv.take(i as int + 1));
            }
            match total.checked_add(est) {
                Some(t) => {
                    total = t;
                },
                None => {
                    proof {
                        lemma_token_sum_take_monotone(logv, i as int + 1);
                    }
                    return None;
                },
            }
            i = i + 1;
        }
        proof {
            assert(logv.take(messages@.len() as int) =~= logv);
        }
        let mut rest = messages;
        let mut dq: VecDeque<ConversationMessage> = VecDeque::new();
        while rest.len() > 0
            invariant
                msg_views(dq@) + msg_views(rest@) == logv,
            decreases rest@.len(),
        {
            let ghost dq0 = dq@;
            let ghost rest0 = rest@;
            let head = rest.remove(0);
            dq.push_back(head);
            proof {
                assert(msg_views(dq@) =~= msg_views(dq0).push(head@));
                assert(msg_views(rest@) =~= msg_views(rest0).drop_first());
                assert(msg_views(dq@) + msg_views(rest@) =~= msg_views(dq0) + msg_views(rest0));
            }
        }
        proof {
            assert(msg_views(dq@) + msg_views(rest@) =~= msg_views(dq@));
        }
        Some(
            ConversationMemory {
                messages: dq,
                max_messages: max_messages,
                current_context_tokens: total,
                max_context_tokens: max_context_tokens,
            },
        )
    }

    /// A copy of the retained log, oldest first, for persistence.
    pub fn snapshot(&self) -> (r: Vec<ConversationMessage>)
        ensures
            msg_views(r@) == self@.log,
    {
        let mut out: Vec<ConversationMessage> = Vec::new();
        let mut i: usize = 0;
        proof {
            assert(msg_views(out@) =~= self@.log.take(0));
        }
        while i < self.messages.len()
            invariant
                i <= self.messages@.len(),
                msg_views(out@) == self@.log.take(i as int),
            decreases self.messages@.len() - i,
        {
            let ghost out0 = out@;
            let dup = duplicate_message(&self.messages[i]);
            out.push(dup);
            proof {
                assert(msg_views(out@) =~= msg_views(out0).push(self@.log[i as int]));
                assert(self@.log.take(i as int).push(self@.log[i as int]) =~= self@.log.take(
                    i as int + 1,
                ));
            }
            i = i + 1;
        }
        proof {
            assert(self@.log.take(self.messages@.len() as int) =~= self@.log);
        }
        out
    }
}

/// If the sum of a prefix exceeds the counter's range, so does the whole.
proof fn lemma_token_sum_take_monotone(log: Seq<MsgV>, k: int)
    requires
        0 <= k <= log.len(),
    ensures
        token_sum(log.take(k)) <= token_sum(log),
    decreases log.len(),
{
    if k > 0 && log.len() > 0 {
        assert(log.take(k)[0] == log[0]);
        assert(log.take(k).drop_first() =~= log.drop_first().take(k - 1));
        lemma_token_sum_take_monotone(log.drop_first(), k - 1);
    } else {
        assert(log.take(0) =~= Seq::<MsgV>::empty());
    }
}

fn duplicate_call(c: &ToolCall) -> (r: ToolCall)
    ensures
        r@ == c@,
{
    ToolCall {
        id: c.id.clone(),
        tool_name: c.tool_name.clone(),
        action: c.action.clone(),
        parameters: c.parameters.clone(),
        timestamp: c.timestamp.clone(),
    }
}

fn duplicate_result(t: &ToolResult) -> (r: ToolResult)
    ensures
        r@ == t@,
{
    ToolResult {
        call_id: t.call_id.clone(),
        tool_name: t.tool_name.clone(),
        action: t.action.clone(),
        result: t.result.clone(),
        success: t.success,
        timestamp: t.timestamp.clone(),
        execution_time_ms: t.execution_time_ms,
    }
}

fn duplicate_calls(v: &Vec<ToolCall>) -> (r: Vec<ToolCall>)
    ensures
        call_rec_views(r@) == call_rec_views(v@),
{
    let mut out: Vec<ToolCall> = Vec::new();
    let mut i: usize = 0;
    proof {
        assert(call_rec_views(out@) =~= call_rec_views(v@).take(0));
    }
    while i < v.len()
        invariant
            i <= v@.len(),
            call_rec_views(out@) == call_rec_views(v@).take(i as int),
        decreases v@.len() - i,
    {
        let ghost out0 = out@;
        out.push(duplicate_call(&v[i]));
        proof {
            assert(call_rec_views(out@) =~= call_rec_views(out0).push(v@[i as int]@));
            assert(call_rec_views(v@).take(i as int).push(v@[i as int]@) =~= call_rec_views(
                v@,
            ).take(i as int + 1));
        }
        i = i + 1;
    }
    proof {
        assert(call_rec_views(v@).take(v@.len() as int) =~= call_rec_views(v@));
    }
    out
}

fn duplicate_results(v: &Vec<ToolResult>) -> (r: Vec<ToolResult>)
    ensures
        result_rec_views(r@) == result_rec_views(v@),
{
    let mut out: Vec<ToolResult> = Vec::new();
    let mut i: usize = 0;
    proof {
        assert(result_rec_views(out@) =~= result_rec_views(v@).take(0));
    }
    while i < v.len()
        invariant
            i <= v@.len(),
            result_rec_views(out@) == result_rec_views(v@).take(i as int),
        decreases v@.len() - i,
    {
        let ghost out0 = out@;
        out.push(duplicate_result(&v[i]));
        proof {
            assert(result_rec_views(out@) =~= result_rec_views(out0).push(v@[i as int]@));
            assert(result_rec_views(v@).take(i as int).push(v@[i as int]@) =~= result_rec_views(
                v@,
            ).take(i as int + 1));
        }
        i = i + 1;
    }
    proof {
        assert(result_rec_views(v@).take(v@.len() as int) =~= result_rec_views(v@));
    }
    out
}

/// A field-for-field copy of one message.
pub fn duplicate_message(m: &ConversationMessage) -> (r: ConversationMessage)
    ensures
        r@ == m@,
{
    ConversationMessage {
        timestamp: m.timestamp.clone(),
        role: m.role,
        content: m.content.clone(),
        tool_calls: match &m.tool_calls {
            Some(v) => Some(duplicate_calls(v)),
            None => None,
        },
        tool_results: match &m.tool_results {
            Some(v) => Some(duplicate_results(v)),
            None => None,
        },
    }
}

// ---- prompt-context rendering ----

/// The line recording one tool call inside the rendered context.
pub open spec fn render_call_line(c: CallRecV) -> Seq<char> {
    "  \u{2192} Called "@ + c.tool_name + "."@ + c.action + " with: "@ + c.parameters + "\n"@
}

pub open spec fn render_call_lines(cs: Seq<CallRecV>) -> Seq<char>
    decreases cs.len(),
{
    if cs.len() == 0 {
        Seq::empty()
    } else {
        render_call_line(cs[0]) + render_call_lines(cs.drop_first())
    }
}

/// The line recording one tool result inside the rendered context.
pub open spec fn render_result_line(t: ResultRecV) -> Seq<char> {
    "  "@ + (if t.success {
        "\u{2713}"@
    } else {
        "\u{2717}"@
    }) + " "@ + t.tool_name + "."@ + t.action + ": "@ + t.result + " ("@ + dec_rep(
        t.execution_time_ms as nat,
    ) + "ms)\n"@
}

pub open spec fn render_result_lines(ts: Seq<ResultRecV>) -> Seq<char>
    decreases ts.len(),
{
    if ts.len() == 0 {
        Seq::empty()
    } else {
        render_result_line(ts[0]) + render_result_lines(ts.drop_first())
    }
}

/// How one message renders: user, assistant (with its calls and results) and
/// system turns one line each; tool turns render nothing.
pub open spec fn render_msg(m: MsgV) -> Seq<char> {
    match m.role {
        MessageRole::User => "User: "@ + m.content + "\n"@,
        MessageRole::Assistant => "Assistant: "@ + m.content + "\n"@ + (match m.tool_calls {
            Some(cs) => render_call_lines(cs),
            None => Seq::empty(),
        }) + (match m.tool_results {
            Some(ts) => render_result_lines(ts),
            None => Seq::empty(),
        }),
        MessageRole::System => "System: "@ + m.content + "\n"@,
        MessageRole::Tool => Seq::empty(),
    }
}

pub open spec fn render_msgs(log: Seq<MsgV>) -> Seq<char>
    decreases log.len(),
{
    if log.len() == 0 {
        Seq::empty()
    } else {
        render_msg(log[0]) + render_msgs(log.drop_first())
    }
}

/// The full rendered context: an optional header, every message in order,
/// and a closing rule when anything rendered at all.
pub open spec fn render_context(log: Seq<MsgV>, include_header: bool) -> Seq<char> {
    let header: Seq<char> = if include_header && log.len() > 0 {
        "## Conversation History\n"@ + "Previous messages and tool interactions:\n\n"@
    } else {
        Seq::empty()
    };
    let body = header + render_msgs(log);
    if body.len() > 0 {
        body + "\n---\n\n"@
    } else {
        body
    }
}

proof fn lemma_render_msgs_snoc(log: Seq<MsgV>, m: MsgV)
    ensures
        render_msgs(log.push(m)) == render_msgs(log) + render_msg(m),
    decreases log.len(),
{
    if log.len() == 0 {
        assert(log.push(m)[0] == m);
        assert(log.push(m).drop_first() =~= Seq::<MsgV>::empty());
        assert(render_msgs(Seq::<MsgV>::empty()) =~= Seq::<char>::empty());
        assert(render_msgs(log.push(m)) =~= render_msg(m));
        assert(render_msgs(log) + render_msg(m) =~= render_msg(m));
    } else {
        assert(log.push(m)[0] == log[0]);
        assert(log.push(m).drop_first() =~= log.drop_first().push(m));
        lemma_render_msgs_snoc(log.drop_first(), m);
        assert(render_msg(log[0]) + (render_msgs(log.drop_first()) + render_msg(m)) =~=
            render_msgs(log) + render_msg(m));
    }
}

proof fn lemma_render_call_lines_snoc(cs: Seq<CallRecV>, c: CallRecV)
    ensures
        render_call_lines(cs.push(c)) == render_call_lines(cs) + render_call_line(c),
    decreases cs.len(),
{
    if cs.len() == 0 {
        assert(cs.push(c)[0] == c);
        assert(cs.push(c).drop_first() =~= Seq::<CallRecV>::empty());
        assert(render_call_lines(Seq::<CallRecV>::empty()) =~= Seq::<char>::empty());
        assert(render_call_lines(cs.push(c)) =~= render_call_line(c));
        assert(render_call_lines(cs) + render_call_line(c) =~= render_call_line(c));
    } else {
        assert(cs.push(c)[0] == cs[0]);
        assert(cs.push(c).drop_first() =~= cs.drop_first().push(c));
        lemma_render_call_lines_snoc(cs.drop_first(), c);
        assert(render_call_line(cs[0]) + (render_call_lines(cs.drop_first()) + render_call_line(
            c,
        )) =~= render_call_lines(cs) + render_call_line(c));
    }
}

proof fn lemma_render_result_lines_snoc(ts: Seq<ResultRecV>, t: ResultRecV)
    ensures
        render_result_lines(ts.push(t)) == render_result_lines(ts) + render_result_line(t),
    decreases ts.len(),
{
    if ts.len() == 0 {
        assert(ts.push(t)[0] == t);
        assert(ts.push(t).drop_first() =~= Seq::<ResultRecV>::empty());
        assert(render_result_lines(Seq::<ResultRecV>::empty()) =~= Seq::<char>::empty());
        assert(render_result_lines(ts.push(t)) =~= render_result_line(t));
        assert(render_result_lines(ts) + render_result_line(t) =~= render_result_line(t));
    } else {
        assert(ts.push(t)[0] == ts[0]);
        assert(ts.push(t).drop_first() =~= ts.drop_first().push(t));
        lemma_render_result_lines_snoc(ts.drop_first(), t);
        assert(render_result_line(ts[0]) + (render_result_lines(ts.drop_first())
            + render_result_line(t)) =~= render_result_lines(ts) + render_result_line(t));
    }
}

/// Renders one message as it appears in the prompt context.
#[verifier::rlimit(60)]
fn render_message(m: &ConversationMessage) -> (r: String)
    ensures
        r@ == render_msg(m@),
{
    let mut s = String::new();
    match m.role {
        MessageRole::User => {
            s.append("User: ");
            s.append(m.content.as_str());
            s.append("\n");
            proof {
                assert(s@ =~= render_msg(m@));
            }
        },
        MessageRole::Assistant => {
            s.append("Assistant: ");
            s.append(m.content.as_str());
            s.append("\n");
            let ghost head = s@;
            match &m.tool_calls {
                Some(cs) => {
                    let mut i: usize = 0;
                    proof {
                        assert(call_rec_views(cs@).take(0) =~= Seq::<CallRecV>::empty());
                        assert(s@ =~= head + render_call_lines(call_rec_views(cs@).take(0)));
                    }
                    while i < cs.len()
                        invariant
                            i <= cs@.len(),
                            s@ == head + render_call_lines(call_rec_views(cs@).take(i as int)),
                        decreases cs@.len() - i,
                    {
                        let ghost done = call_rec_views(cs@).take(i as int);
                        let c = &cs[i];
                        s.append("  \u{2192} Called ");
                        s.append(c.tool_name.as_str());
                        s.append(".");
                        s.append(c.action.as_str());
                        s.append(" with: ");
                        s.append(c.parameters.as_str());
                        s.append("\n");
                        proof {
                            lemma_render_call_lines_snoc(done, c@);
                            assert(done.push(c@) =~= call_rec_views(cs@).take(i as int + 1));
                            assert(s@ =~= head + render_call_lines(
                                call_rec_views(cs@).take(i as int + 1),
                            ));
                        }
                        i = i + 1;
                    }
                    proof {
                        assert(call_rec_views(cs@).take(cs@.len() as int) =~= call_rec_views(
                            cs@,
                        ));
                    }
                },
                None => {},
            }
            let ghost mid = s@;
            match &m.tool_results {
                Some(ts) => {
                    let mut i: usize = 0;
                    proof {
                        assert(result_rec_views(ts@).take(0) =~= Seq::<ResultRecV>::empty());
                        assert(s@ =~= mid + render_result_lines(result_rec_views(ts@).take(0)));
                    }
                    while i < ts.len()
                        invariant
                            i <= ts@.len(),
                            s@ == mid + render_result_lines(result_rec_views(ts@).take(i as int)),
                        decreases ts@.len() - i,
                    {
                        let ghost done = result_rec_views(ts@).take(i as int);
                        let t = &ts[i];
                        s.append("  ");
                        if t.success {
                            s.append("\u{2713}");
                        } else {
                            s.append("\u{2717}");
                        }
                        s.append(" ");
                        s.append(t.tool_name.as_str());
                        s.append(".");
                        s.append(t.action.as_str());
                        s.append(": ");
                        s.append(t.result.as_str());
                        s.append(" (");
                        let ms = fmt_u64(t.execution_time_ms);
                        s.append(ms.as_str());
                        s.append("ms)\n");
                        proof {
                            lemma_render_result_lines_snoc(done, t@);
                            assert(done.push(t@) =~= result_rec_views(ts@).take(i as int + 1));
                            assert(s@ =~= mid + render_result_lines(
                                result_rec_views(ts@).take(i as int + 1),
                            ));
                        }
                        i = i + 1;
                    }
                    proof {
                        assert(result_rec_views(ts@).take(ts@.len() as int) =~= result_rec_views(
                            ts@,
                        ));
                    }
                },
                None => {},
            }
            proof {
                assert(s@ =~= render_msg(m@));
            }
        },
        MessageRole::System => {
            s.append("System: ");
            s.append(m.content.as_str());
            s.append("\n");
            proof {
                assert(s@ =~= render_msg(m@));
            }
        },
        MessageRole::Tool => {
            proof {
                assert(s@ =~= render_msg(m@));
            }
        },
    }
    s
}

// ---- recent tool usage ----

/// The "tool.action" pair of one call.
pub open spec fn usage_pair(c: CallRecV) -> Seq<char> {
    c.tool_name + "."@ + c.action
}

/// The usage pairs one message contributes, in call order.
pub open spec fn msg_usage(m: MsgV) -> Seq<Seq<char>> {
    match m.tool_calls {
        Some(cs) => cs.map_values(|c: CallRecV| usage_pair(c)),
        None => Seq::empty(),
    }
}

/// The newest `k` messages of the log, newest first.
pub open spec fn newest_first(log: Seq<MsgV>, k: nat) -> Seq<MsgV>
    decreases k,
{
    if k == 0 || log.len() == 0 {
        Seq::empty()
    } else {
        seq![log.last()] + newest_first(log.drop_last(), (k - 1) as nat)
    }
}

pub open spec fn flat_usage(msgs: Seq<MsgV>) -> Seq<Seq<char>>
    decreases msgs.len(),
{
    if msgs.len() == 0 {
        Seq::empty()
    } else {
        msg_usage(msgs[0]) + flat_usage(msgs.drop_first())
    }
}

/// First-occurrence de-duplication of `items`, appended to `acc`.
pub open spec fn dedup_from(acc: Seq<Seq<char>>, items: Seq<Seq<char>>) -> Seq<Seq<char>>
    decreases items.len(),
{
    if items.len() == 0 {
        acc
    } else {
        dedup_from(
            if acc.contains(items[0]) {
                acc
            } else {
                acc.push(items[0])
            },
            items.drop_first(),
        )
    }
}

/// What `get_recent_tool_usage` returns: the de-duplicated usage pairs of the
/// newest five messages, scanned newest first, first occurrence winning.
pub open spec fn recent_usage(log: Seq<MsgV>) -> Seq<Seq<char>> {
    dedup_from(Seq::empty(), flat_usage(newest_first(log, 5)))
}

proof fn lemma_dedup_from_app(acc: Seq<Seq<char>>, a: Seq<Seq<char>>, b: Seq<Seq<char>>)
    ensures
        dedup_from(acc, a + b) == dedup_from(dedup_from(acc, a), b),
    decreases a.len(),
{
    if a.len() == 0 {
        assert(a + b =~= b);
    } else {
        assert((a + b)[0] == a[0]);
        assert((a + b).drop_first() =~= a.drop_first() + b);
        let acc1 = if acc.contains(a[0]) {
            acc
        } else {
            acc.push(a[0])
        };
        lemma_dedup_from_app(acc1, a.drop_first(), b);
    }
}

proof fn lemma_dedup_from_snoc(acc: Seq<Seq<char>>, items: Seq<Seq<char>>, x: Seq<char>)
    ensures
        dedup_from(acc, items.push(x)) == ({
            let acc2 = dedup_from(acc, items);
            if acc2.contains(x) {
                acc2
            } else {
                acc2.push(x)
            }
        }),
{
    assert(items.push(x) =~= items + seq![x]);
    lemma_dedup_from_app(acc, items, seq![x]);
    let acc2 = dedup_from(acc, items);
    assert(seq![x][0] == x);
    assert(seq![x].drop_first() =~= Seq::<Seq<char>>::empty());
    let acc3 = if acc2.contains(x) {
        acc2
    } else {
        acc2.push(x)
    };
    assert(dedup_from(acc2, seq![x]) == dedup_from(acc3, Seq::<Seq<char>>::empty()));
}

proof fn lemma_newest_first_snoc(log: Seq<MsgV>, k: nat)
    requires
        k < log.len(),
        k < 5,
    ensures
        newest_first(log, (k + 1) as nat) == newest_first(log, k).push(
            log[log.len() - 1 - k],
        ),
    decreases k,
{
    if k == 0 {
        assert(newest_first(log.drop_last(), 0) =~= Seq::<MsgV>::empty());
        assert(newest_first(log, 1) =~= seq![log.last()]);
        assert(newest_first(log, 0) =~= Seq::<MsgV>::empty());
        assert(newest_first(log, 0).push(log.last()) =~= seq![log.last()]);
    } else {
        lemma_newest_first_snoc(log.drop_last(), (k - 1) as nat);
        assert(log.drop_last()[log.drop_last().len() - 1 - (k - 1)] == log[log.len() - 1 - k]);
        assert(seq![log.last()] + newest_first(log.drop_last(), k) =~= (seq![log.last()]
            + newest_first(log.drop_last(), (k - 1) as nat)).push(log[log.len() - 1 - k]));
    }
}

proof fn lemma_flat_usage_snoc(msgs: Seq<MsgV>, m: MsgV)
    ensures
        flat_usage(msgs.push(m)) == flat_usage(msgs) + msg_usage(m),
    decreases msgs.len(),
{
    if msgs.len() == 0 {
        assert(msgs.push(m)[0] == m);
        assert(msgs.push(m).drop_first() =~= Seq::<MsgV>::empty());
        assert(flat_usage(Seq::<MsgV>::empty()) =~= Seq::<Seq<char>>::empty());
        assert(flat_usage(msgs.push(m)) =~= msg_usage(m));
        assert(flat_usage(msgs) + msg_usage(m) =~= msg_usage(m));
    } else {
        assert(msgs.push(m)[0] == msgs[0]);
        assert(msgs.push(m).drop_first() =~= msgs.drop_first().push(m));
        lemma_flat_usage_snoc(msgs.drop_first(), m);
        assert(msg_usage(msgs[0]) + (flat_usage(msgs.drop_first()) + msg_usage(m)) =~=
            flat_usage(msgs) + msg_usage(m));
    }
}

impl ConversationMemory {
    /// Renders the retained log as prompt context, optionally headed by the
    /// conversation-history banner, with a closing rule when non-empty.
    pub fn get_context_for_prompt(&self, include_system_info: bool) -> (r: String)
        ensures
            r@ == render_context(self@.log, include_system_info),
    {
        let mut s = String::new();
        if include_system_info && self.messages.len() > 0 {
            s.append("## Conversation History\n");
            s.append("Previous messages and tool interactions:\n\n");
        }
        let ghost header = s@;
        let mut i: usize = 0;
        proof {
            assert(self@.log.take(0) =~= Seq::<MsgV>::empty());
            assert(render_msgs(Seq::<MsgV>::empty()) =~= Seq::<char>::empty());
            assert(s@ =~= header + render_msgs(self@.log.take(0)));
        }
        while i < self.messages.len()
            invariant
                i <= self.messages@.len(),
                s@ == header + render_msgs(self@.log.take(i as int)),
            decreases self.messages@.len() - i,
        {
            let ghost done = self@.log.take(i as int);
            let line = render_message(&self.messages[i]);
            s.append(line.as_str());
            proof {
                lemma_render_msgs_snoc(done, self@.log[i as int]);
                assert(done.push(self@.log[i as int]) =~= self@.log.take(i as int + 1));
                assert(s@ =~= header + render_msgs(self@.log.take(i as int + 1)));
            }
            i = i + 1;
        }
        proof {
            assert(self@.log.take(self.messages@.len() as int) =~= self@.log);
        }
        if !s.as_str().is_empty() {
            s.append("\n---\n\n");
        }
        s
    }

    /// The de-duplicated "tool.action" pairs used in the newest five
    /// messages, scanned newest first.
    pub fn get_recent_tool_usage(&self) -> (r: Vec<String>)
        ensures
            views_of(r@) == recent_usage(self@.log),
    {
        let mut used: Vec<String> = Vec::new();
        let len = self.messages.len();
        let window: usize = if len < 5 {
            len
        } else {
            5
        };
        let mut k: usize = 0;
        proof {
            assert(newest_first(self@.log, 0) =~= Seq::<MsgV>::empty());
            assert(flat_usage(Seq::<MsgV>::empty()) =~= Seq::<Seq<char>>::empty());
            assert(views_of(used@) =~= dedup_from(
                Seq::empty(),
                flat_usage(newest_first(self@.log, 0)),
            ));
        }
        while k < window
            invariant
                len == self@.log.len(),
                window == if len < 5 {
                    len as int
                } else {
                    5
                },
                k <= window,
                views_of(used@) == dedup_from(
                    Seq::empty(),
                    flat_usage(newest_first(self@.log, k as nat)),
                ),
            decreases window - k,
        {
            let ghost flatk = flat_usage(newest_first(self@.log, k as nat));
            let m = &self.messages[len - 1 - k];
            proof {
                lemma_newest_first_snoc(self@.log, k as nat);
                lemma_flat_usage_snoc(
                    newest_first(self@.log, k as nat),
                    self@.log[len - 1 - k as int],
                );
            }
            match &m.tool_calls {
                Some(cs) => {
                    let ghost usage = msg_usage(self@.log[len - 1 - k as int]);
                    let mut j: usize = 0;
                    proof {
                        assert(usage =~= call_rec_views(cs@).map_values(
                            |c: CallRecV| usage_pair(c),
                        ));
                        assert(usage.take(0) =~= Seq::<Seq<char>>::empty());
                        lemma_dedup_from_app(Seq::empty(), flatk, usage.take(0));
                        assert(flatk + usage.take(0) =~= flatk);
                    }
                    while j < cs.len()
                        invariant
                            usage == msg_usage(self@.log[len - 1 - k as int]),
                            usage == call_rec_views(cs@).map_values(|c: CallRecV| usage_pair(c)),
                            usage.len() == cs@.len(),
                            j <= cs@.len(),
                            views_of(used@) == dedup_from(Seq::empty(), flatk + usage.take(
                                j as int,
                            )),
                        decreases cs@.len() - j,
                    {
                        let c = &cs[j];
                        let mut pair = String::new();
                        pair.append(c.tool_name.as_str());
                        pair.append(".");
                        pair.append(c.action.as_str());
                        proof {
                            assert(pair@ =~= usage_pair(c@));
                            assert(usage[j as int] == usage_pair(c@));
                        }
                        let present = vec_contains_str(&used, pair.as_str());
                        let ghost used0 = used@;
                        if !present {
                            used.push(pair);
                        }
                        proof {
                            lemma_dedup_from_snoc(Seq::empty(), flatk + usage.take(j as int),
                                usage[j as int]);
                            assert((flatk + usage.take(j as int)).push(usage[j as int]) =~= flatk
                                + usage.take(j as int + 1));
                            if !present {
                                assert(views_of(used@) =~= views_of(used0).push(pair@));
                            }
                        }
                        j = j + 1;
                    }
                    proof {
                        assert(usage.take(cs@.len() as int) =~= usage);
                    }
                },
                None => {
                    proof {
                        assert(msg_usage(self@.log[len - 1 - k as int]) =~= Seq::<Seq<char>>::empty());
                        lemma_dedup_from_app(
                            Seq::empty(),
                            flatk,
                            msg_usage(self@.log[len - 1 - k as int]),
                        );
                        assert(flatk + msg_usage(self@.log[len - 1 - k as int]) =~= flatk);
                    }
                },
            }
            proof {
                lemma_dedup_from_app(
                    Seq::empty(),
                    flatk,
                    msg_usage(self@.log[len - 1 - k as int]),
                );
            }
            k = k + 1;
        }
        proof {
            if len < 5 {
                assert(newest_first(self@.log, window as nat) =~= newest_first(self@.log, 5))
                    by {
                    lemma_newest_first_exhausted(self@.log, window as nat, 5);
                };
            }
        }
        used
    }
}

/// Asking for more than the log holds changes nothing once it is exhausted.
proof fn lemma_newest_first_exhausted(log: Seq<MsgV>, k1: nat, k2: nat)
    requires
        log.len() <= k1 <= k2,
    ensures
        newest_first(log, k1) == newest_first(log, k2),
    decreases log.len(),
{
    if k1 == 0 || log.len() == 0 {
        assert(newest_first(log, k1) =~= Seq::<MsgV>::empty());
        assert(newest_first(log, k2) =~= Seq::<MsgV>::empty());
    } else {
        lemma_newest_first_exhausted(log.drop_last(), (k1 - 1) as nat, (k2 - 1) as nat);
    }
}


} // verus!
