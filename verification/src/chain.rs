//! The iteration machinery of the agent's chain: folding one iteration's
//! result into the running conversation and the execution history, deciding
//! whether the chain continues, the hard iteration ceiling, and the memory
//! update of one iteration. The host drives the loop, performing the model
//! call and the tool dispatches between these steps.

use vstd::prelude::*;
use vstd::string::*;
use crate::detector::{signals_continuation, ContinuationDetector};
use crate::memory::{
    after_attach, after_insert, assistant_message, call_rec_views, result_rec_views,
    token_estimate_of, token_sum, ConversationMemory, MemV, ResultRecV, ToolCall, ToolResult,
};
use crate::textutil::dec_rep;

verus! {

/// The running conversation after one more iteration: earlier iterations
/// are separated from it by a blank-line rule.
pub open spec fn folded_conversation(prev: Seq<char>, item: Seq<char>) -> Seq<char> {
    (if prev.len() > 0 {
        prev + "\n\n---\n\n"@
    } else {
        prev
    }) + item
}

/// The execution history after one more continuing iteration, labelled with
/// its number.
pub open spec fn extended_context(prev: Seq<char>, iteration: nat, item: Seq<char>) -> Seq<char> {
    prev + "\nIteration "@ + dec_rep(iteration) + ":\n"@ + item + "\n"@
}

/// One iteration's result text: the reply, and the transcript under its
/// banner when any tool ran.
pub open spec fn iteration_result_of(reply: Seq<char>, transcript: Seq<char>) -> Seq<char> {
    if transcript.len() > 0 {
        reply + "\n\n**Tool Results:**\n"@ + transcript
    } else {
        reply
    }
}

/// The chain continues only when this iteration ran tools and the reply
/// carries a continuation cue.
pub open spec fn continue_decision(transcript: Seq<char>, reply: Seq<char>) -> bool {
    transcript.len() > 0 && signals_continuation(reply)
}

/// Appends one iteration's result to the running conversation.
pub fn fold_iteration(full_conversation: &mut String, iteration_result: &str)
    ensures
        final(full_conversation)@ == folded_conversation(
            old(full_conversation)@,
            iteration_result@,
        ),
{
    if !full_conversation.as_str().is_empty() {
        full_conversation.append("\n\n---\n\n");
    }
    full_conversation.append(iteration_result);
}

/// Appends one continuing iteration's result to the execution history.
pub fn extend_execution_context(
    execution_context: &mut String,
    iteration: u64,
    iteration_result: &str,
)
    ensures
        final(execution_context)@ == extended_context(
            old(execution_context)@,
            iteration as nat,
            iteration_result@,
        ),
{
    execution_context.append("\nIteration ");
    let n = crate::textutil::fmt_u64(iteration);
    execution_context.append(n.as_str());
    execution_context.append(":\n");
    execution_context.append(iteration_result);
    execution_context.append("\n");
}

/// Builds one iteration's result text from the reply and the transcript.
pub fn build_iteration_result(reply: &str, transcript: &str) -> (r: String)
    ensures
        r@ == iteration_result_of(reply@, transcript@),
{
    let mut s = String::from_str(reply);
    if !transcript.is_empty() {
        s.append("\n\n**Tool Results:**\n");
        s.append(transcript);
    }
    s
}

/// Decides whether the chain keeps iterating after this iteration.
pub fn should_continue_iteration(transcript: &str, reply: &str) -> (r: bool)
    ensures
        r == continue_decision(transcript@, reply@),
{
    let detector = ContinuationDetector;
    !transcript.is_empty() && detector.should_continue(reply)
}

/// The memory after an iteration is recorded: the assistant turn with its
/// calls, then each result attached in turn — each attachment replacing the
/// previous one, so the last result stays.
pub open spec fn attach_each(m: MemV, rs: Seq<ResultRecV>) -> MemV
    decreases rs.len(),
{
    if rs.len() == 0 {
        m
    } else {
        attach_each(after_attach(m, seq![rs[0]]), rs.drop_first())
    }
}

/// Records one iteration into memory: the assistant message carrying its
/// tool calls, then each tool result.
pub fn record_iteration(
    memory: &mut ConversationMemory,
    reply: String,
    calls: Vec<ToolCall>,
    results: Vec<ToolResult>,
)
    requires
        old(memory).wf(),
        token_sum(old(memory)@.log) + token_estimate_of(reply@) <= usize::MAX,
    ensures
        final(memory).wf(),
        exists|ts: Seq<char>|
            final(memory)@ == attach_each(
                after_insert(
                    old(memory)@,
                    #[trigger] assistant_message(ts, reply@, Some(call_rec_views(calls@))),
                ),
                result_rec_views(results@),
            ),
{
    let ghost resultsv = result_rec_views(results@);
    memory.add_assistant_message(reply, Some(calls));
    let ghost mid = memory@;
    let mut rest = results;
    while rest.len() > 0
        invariant
            memory.wf(),
            attach_each(memory@, result_rec_views(rest@)) == attach_each(mid, resultsv),
        decreases rest@.len(),
    {
        let ghost restv = result_rec_views(rest@);
        let head = rest.remove(0);
        let mut one: Vec<ToolResult> = Vec::new();
        one.push(head);
        proof {
            assert(result_rec_views(one@) =~= seq![restv[0]]);
            assert(result_rec_views(rest@) =~= restv.drop_first());
        }
        memory.add_tool_results(one);
    }
    proof {
        assert(result_rec_views(rest@) =~= Seq::<ResultRecV>::empty());
        assert(attach_each(memory@, Seq::<ResultRecV>::empty()) == memory@);
    }
}

/// Handles the chain of thoughts execution loop: its single knob is the
/// hard iteration ceiling.
pub struct ChainExecutor {
    max_iterations: usize,
}

impl ChainExecutor {
    pub closed spec fn max_iters(&self) -> nat {
        self.max_iterations as nat
    }

    pub fn new(max_iterations: usize) -> (r: ChainExecutor)
        ensures
            r.max_iters() == max_iterations as nat,
    {
        ChainExecutor { max_iterations: max_iterations }
    }

    /// Whether another iteration may start after `completed` finished ones:
    /// the ceiling is enforced independent of the model's behaviour.
    pub fn may_iterate(&self, completed: usize) -> (r: bool)
        ensures
            r == ((completed as nat) < self.max_iters()),
    {
        completed < self.max_iterations
    }
}

} // verus!
