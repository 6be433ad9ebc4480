//! Batch assembly for tool execution. The executor plans the calls out of a
//! reply, and folds the per-call outcomes — declined at confirmation, or
//! executed with a success or error text and a measured duration — into the
//! `ToolCall` and `ToolResult` records and the human-readable transcript.
//! Asking for confirmation and dispatching into a live tool are the caller's side.

use vstd::prelude::*;
use vstd::string::*;
use crate::calls::{call_views, parsed_calls_of, CallV, ToolInvocation};
use crate::confirm::ConfirmationHandler;
use crate::extractor::JsonParser;
use crate::memory::{call_rec_views, result_rec_views, CallRecV, ResultRecV, ToolCall, ToolResult};
use crate::shims::{new_call_id, now_rfc3339};
use crate::textutil::{joined_tail, joined_with, lemma_joined_with_snoc};

verus! {

/// What became of one validated call once the user was asked.
pub enum CallOutcome {
    /// The user declined; the tool never ran.
    Declined,
    /// The tool ran: its text on success or its rendered error, and the
    /// measured wall-clock duration.
    Executed { result: Result<String, String>, duration_ms: u64 },
}

pub ghost struct OutcomeV {
    pub declined: bool,
    pub result: Result<Seq<char>, Seq<char>>,
    pub duration_ms: u64,
}

impl View for CallOutcome {
    type V = OutcomeV;

    open spec fn view(&self) -> OutcomeV {
        match self {
            CallOutcome::Declined => OutcomeV {
                declined: true,
                result: Ok(Seq::empty()),
                duration_ms: 0,
            },
            CallOutcome::Executed { result, duration_ms } => OutcomeV {
                declined: false,
                result: match result {
                    Ok(t) => Ok(t@),
                    Err(m) => Err(m@),
                },
                duration_ms: *duration_ms,
            },
        }
    }
}

pub open spec fn outcome_views(v: Seq<CallOutcome>) -> Seq<OutcomeV> {
    v.map_values(|o: CallOutcome| o@)
}

/// The result text recorded for an executed call: the tool's own text, or
/// its error prefixed distinctly.
pub open spec fn outcome_text(o: OutcomeV) -> Seq<char> {
    match o.result {
        Ok(t) => t,
        Err(m) => "Error: "@ + m,
    }
}

/// The transcript line one call contributes.
pub open spec fn transcript_line(o: OutcomeV) -> Seq<char> {
    if o.declined {
        "Tool execution cancelled by user."@
    } else {
        outcome_text(o)
    }
}

pub open spec fn transcript_lines(outcomes: Seq<OutcomeV>) -> Seq<Seq<char>> {
    outcomes.map_values(|o: OutcomeV| transcript_line(o))
}

/// The whole transcript: one line per call, in call order.
pub open spec fn transcript_of(outcomes: Seq<OutcomeV>) -> Seq<char> {
    joined_with(transcript_lines(outcomes), "\n"@)
}

/// One executed call's records agree: the call record carries the call's
/// fields, the result record points back at it by id and carries the
/// outcome.
pub open spec fn record_pair_matches(
    c: CallV,
    o: OutcomeV,
    rec: CallRecV,
    res: ResultRecV,
) -> bool {
    &&& rec.tool_name == c.tool
    &&& rec.action == c.action
    &&& rec.parameters == c.parameters
    &&& res.call_id == rec.id
    &&& res.tool_name == c.tool
    &&& res.action == c.action
    &&& res.result == outcome_text(o)
    &&& res.success == (o.result is Ok)
    &&& res.execution_time_ms == o.duration_ms
}

/// The records of a batch: exactly one call record and one result record per
/// executed call, in call order; declined calls leave none.
pub open spec fn records_match(
    calls: Seq<CallV>,
    outcomes: Seq<OutcomeV>,
    recs: Seq<CallRecV>,
    ress: Seq<ResultRecV>,
) -> bool
    decreases calls.len(),
{
    if calls.len() == 0 || outcomes.len() == 0 {
        recs.len() == 0 && ress.len() == 0
    } else if outcomes[0].declined {
        records_match(calls.drop_first(), outcomes.drop_first(), recs, ress)
    } else {
        &&& recs.len() > 0
        &&& ress.len() > 0
        &&& record_pair_matches(calls[0], outcomes[0], recs[0], ress[0])
        &&& records_match(
            calls.drop_first(),
            outcomes.drop_first(),
            recs.drop_first(),
            ress.drop_first(),
        )
    }
}

/// Handles tool execution with confirmation and tracking.
pub struct ToolExecutor {
    confirmation_handler: ConfirmationHandler,
    json_parser: JsonParser,
}

impl ToolExecutor {
    pub fn new() -> Self {
        ToolExecutor {
            confirmation_handler: ConfirmationHandler::new(),
            json_parser: JsonParser::new(),
        }
    }

    /// Extracts and validates the calls of a reply, in source order; an
    /// empty batch is not an error.
    pub fn plan_calls(&self, response: &str) -> (r: Vec<ToolInvocation>)
        ensures
            call_views(r@) == parsed_calls_of(response@),
    {
        self.json_parser.parse_tool_calls(response)
    }

    /// Folds the outcomes of a batch into its records and transcript. A
    /// declined call contributes its cancellation line and no records; an
    /// executed call contributes one call record, one result record tied to
    /// it by a fresh id, and its result text.
    pub fn assemble_batch(&self, calls: &Vec<ToolInvocation>, outcomes: &Vec<CallOutcome>) -> (r:
        (Vec<ToolCall>, Vec<ToolResult>, String))
        requires
            calls@.len() == outcomes@.len(),
        ensures
            records_match(
                call_views(calls@),
                outcome_views(outcomes@),
                call_rec_views(r.0@),
                result_rec_views(r.1@),
            ),
            r.2@ == transcript_of(outcome_views(outcomes@)),
    {
        let mut recs: Vec<ToolCall> = Vec::new();
        let mut ress: Vec<ToolResult> = Vec::new();
        let mut transcript = String::new();
        let mut i: usize = 0;
        proof {
            assert(transcript_lines(outcome_views(outcomes@)).take(0) =~= Seq::<Seq<char>>::empty());
            assert(transcript@ =~= joined_with(
                transcript_lines(outcome_views(outcomes@)).take(0),
                "\n"@,
            ));
        }
        while i < calls.len()
            invariant
                calls@.len() == outcomes@.len(),
                i <= calls@.len(),
                records_match(
                    call_views(calls@).take(i as int),
                    outcome_views(outcomes@).take(i as int),
                    call_rec_views(recs@),
                    result_rec_views(ress@),
                ),
                transcript@ == joined_with(
                    transcript_lines(outcome_views(outcomes@)).take(i as int),
                    "\n"@,
                ),
            decreases calls@.len() - i,
        {
            let ghost callsv = call_views(calls@);
            let ghost outsv = outcome_views(outcomes@);
            let ghost recs0 = recs@;
            let ghost ress0 = ress@;
            let call = &calls[i];
            let outcome = &outcomes[i];
            let line: String = match outcome {
                CallOutcome::Declined => String::from_str("Tool execution cancelled by user."),
                CallOutcome::Executed { result, duration_ms } => {
                    let call_id = new_call_id();
                    let timestamp = now_rfc3339();
                    let (result_text, succeeded): (String, bool) = match result {
                        Ok(t) => (t.clone(), true),
                        Err(m) => (String::from_str("Error: ").concat(m.as_str()), false),
                    };
                    let rec = ToolCall {
                        id: call_id.clone(),
                        tool_name: call.tool.clone(),
                        action: call.action.clone(),
                        parameters: call.parameters.clone(),
                        timestamp: timestamp.clone(),
                    };
                    let res = ToolResult {
                        call_id: call_id,
                        tool_name: call.tool.clone(),
                        action: call.action.clone(),
                        result: result_text.clone(),
                        success: succeeded,
                        timestamp: timestamp,
                        execution_time_ms: *duration_ms,
                    };
                    recs.push(rec);
                    ress.push(res);
                    result_text
                },
            };
            if i > 0 {
                transcript.append("\n");
            }
            transcript.append(line.as_str());
            proof {
                assert(outsv[i as int] == outcomes@[i as int]@);
                assert(callsv[i as int] == calls@[i as int]@);
                assert(line@ == transcript_line(outsv[i as int]));
                lemma_joined_with_snoc(
                    transcript_lines(outsv).take(i as int),
                    "\n"@,
                    transcript_line(outsv[i as int]),
                );
                assert(transcript_lines(outsv).take(i as int).push(
                    transcript_line(outsv[i as int]),
                ) =~= transcript_lines(outsv).take(i as int + 1));
                if i == 0 {
                    assert(transcript@ =~= joined_with(transcript_lines(outsv).take(1), "\n"@));
                }
                if !outsv[i as int].declined {
                    assert(call_rec_views(recs@) =~= call_rec_views(recs0).push(recs@.last()@));
                    assert(result_rec_views(ress@) =~= result_rec_views(ress0).push(
                        ress@.last()@,
                    ));
                    assert(call_rec_views(recs@).take(call_rec_views(recs0).len() as int)
                        =~= call_rec_views(recs0));
                    assert(result_rec_views(ress@).take(result_rec_views(ress0).len() as int)
                        =~= result_rec_views(ress0));
                    assert(call_rec_views(recs@).last() == recs@.last()@);
                    assert(result_rec_views(ress@).last() == ress@.last()@);
                    assert(record_pair_matches(
                        callsv[i as int],
                        outsv[i as int],
                        call_rec_views(recs@).last(),
                        result_rec_views(ress@).last(),
                    ));
                } else {
                    assert(recs@ == recs0 && ress@ == ress0);
                }
                lemma_records_match_snoc(
                    callsv.take(i as int),
                    outsv.take(i as int),
                    call_rec_views(recs0),
                    result_rec_views(ress0),
                    callsv[i as int],
                    outsv[i as int],
                    call_rec_views(recs@),
                    result_rec_views(ress@),
                );
                assert(callsv.take(i as int).push(callsv[i as int]) =~= callsv.take(i as int + 1));
                assert(outsv.take(i as int).push(outsv[i as int]) =~= outsv.take(i as int + 1));
            }
            i = i + 1;
        }
        proof {
            assert(call_views(calls@).take(calls@.len() as int) =~= call_views(calls@));
            assert(outcome_views(outcomes@).take(outcomes@.len() as int) =~= outcome_views(
                outcomes@,
            ));
            assert(transcript_lines(outcome_views(outcomes@)).take(outcomes@.len() as int)
                =~= transcript_lines(outcome_views(outcomes@)));
        }
        (recs, ress, transcript)
    }
}

/// Extending a batch by one call extends its records by that call's
/// contribution.
proof fn lemma_records_match_snoc(
    calls: Seq<CallV>,
    outcomes: Seq<OutcomeV>,
    recs: Seq<CallRecV>,
    ress: Seq<ResultRecV>,
    c: CallV,
    o: OutcomeV,
    recs2: Seq<CallRecV>,
    ress2: Seq<ResultRecV>,
)
    requires
        calls.len() == outcomes.len(),
        records_match(calls, outcomes, recs, ress),
        o.declined ==> recs2 == recs && ress2 == ress,
        !o.declined ==> recs2.len() == recs.len() + 1 && ress2.len() == ress.len() + 1
            && recs2.take(recs.len() as int) == recs && ress2.take(ress.len() as int) == ress
            && record_pair_matches(c, o, recs2.last(), ress2.last()),
    ensures
        records_match(calls.push(c), outcomes.push(o), recs2, ress2),
    decreases calls.len(),
{
    if calls.len() == 0 {
        assert(recs.len() == 0 && ress.len() == 0);
        assert(calls.push(c)[0] == c);
        assert(outcomes.push(o)[0] == o);
        assert(calls.push(c).drop_first() =~= Seq::<CallV>::empty());
        assert(outcomes.push(o).drop_first() =~= Seq::<OutcomeV>::empty());
        if o.declined {
            assert(recs2.len() == 0 && ress2.len() == 0);
            assert(records_match(Seq::<CallV>::empty(), Seq::<OutcomeV>::empty(), recs2, ress2));
        } else {
            assert(recs2[0] == recs2.last());
            assert(ress2[0] == ress2.last());
            assert(recs2.drop_first() =~= Seq::<CallRecV>::empty());
            assert(ress2.drop_first() =~= Seq::<ResultRecV>::empty());
            assert(records_match(
                Seq::<CallV>::empty(),
                Seq::<OutcomeV>::empty(),
                recs2.drop_first(),
                ress2.drop_first(),
            ));
        }
    } else {
        assert(calls.push(c)[0] == calls[0]);
        assert(outcomes.push(o)[0] == outcomes[0]);
        assert(calls.push(c).drop_first() =~= calls.drop_first().push(c));
        assert(outcomes.push(o).drop_first() =~= outcomes.drop_first().push(o));
        if outcomes[0].declined {
            lemma_records_match_snoc(
                calls.drop_first(),
                outcomes.drop_first(),
                recs,
                ress,
                c,
                o,
                recs2,
                ress2,
            );
        } else {
            if o.declined {
                lemma_records_match_snoc(
                    calls.drop_first(),
                    outcomes.drop_first(),
                    recs.drop_first(),
                    ress.drop_first(),
                    c,
                    o,
                    recs2.drop_first(),
                    ress2.drop_first(),
                );
            } else {
                assert(recs2.drop_first().take(recs.drop_first().len() as int) =~= recs.drop_first());
                assert(ress2.drop_first().take(ress.drop_first().len() as int) =~= ress.drop_first());
                assert(recs2.drop_first().last() == recs2.last());
                assert(ress2.drop_first().last() == ress2.last());
                lemma_records_match_snoc(
                    calls.drop_first(),
                    outcomes.drop_first(),
                    recs.drop_first(),
                    ress.drop_first(),
                    c,
                    o,
                    recs2.drop_first(),
                    ress2.drop_first(),
                );
                assert(recs2[0] == recs[0]);
                assert(ress2[0] == ress[0]);
            }
        }
    }
}

/// Law: in a batch of two calls whose first is approved and executed and
/// whose second is declined by the user, exactly one result record is
/// produced, for the first call, and the transcript is that call's entry
/// followed by the cancellation line, in call order.
pub proof fn lemma_decline_second_of_two(
    calls: Seq<CallV>,
    outcomes: Seq<OutcomeV>,
    recs: Seq<CallRecV>,
    ress: Seq<ResultRecV>,
)
    requires
        calls.len() == 2,
        outcomes.len() == 2,
        !outcomes[0].declined,
        outcomes[1].declined,
        records_match(calls, outcomes, recs, ress),
    ensures
        recs.len() == 1,
        ress.len() == 1,
        record_pair_matches(calls[0], outcomes[0], recs[0], ress[0]),
        transcript_of(outcomes) == outcome_text(outcomes[0]) + "\n"@
            + "Tool execution cancelled by user."@,
{
    assert(records_match(
        calls.drop_first(),
        outcomes.drop_first(),
        recs.drop_first(),
        ress.drop_first(),
    ));
    assert(records_match(
        calls.drop_first().drop_first(),
        outcomes.drop_first().drop_first(),
        recs.drop_first(),
        ress.drop_first(),
    ));
    assert(recs.drop_first().len() == 0);
    assert(ress.drop_first().len() == 0);
    let lines = transcript_lines(outcomes);
    assert(lines.len() == 2);
    assert(lines[0] == outcome_text(outcomes[0]));
    assert(lines[1] == "Tool execution cancelled by user."@);
    let rest = lines.drop_first();
    assert(rest[0] == lines[1]);
    assert(rest.drop_first() =~= Seq::<Seq<char>>::empty());
    assert(joined_tail(rest.drop_first(), "\n"@) =~= Seq::<char>::empty());
    assert(joined_tail(rest, "\n"@) == "\n"@ + lines[1] + joined_tail(
        rest.drop_first(),
        "\n"@,
    ));
    assert(transcript_of(outcomes) == lines[0] + joined_tail(rest, "\n"@));
    assert(lines[0] + ("\n"@ + lines[1] + Seq::<char>::empty()) =~= outcome_text(outcomes[0])
        + "\n"@ + "Tool execution cancelled by user."@);
}

} // verus!
