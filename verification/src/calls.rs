//! Validation of extracted JSON candidates into tool-call records.
//!
//! Each candidate from the extractor is read as a single JSON document; a
//! document carrying string-valued "tool" and "action" fields becomes one
//! call, with its "parameters" field kept as compact JSON text ("null" when
//! absent). A candidate that is not a JSON document at all is read as a JSON
//! array and contributes its valid members in array order; anything else is
//! silently dropped.

use vstd::prelude::*;
use vstd::string::*;
use crate::extractor::{extraction, JsonParser};
use crate::shims::{
    json_array_items, json_array_items_of, json_field_text, json_field_text_of, json_is_doc,
    json_parses, json_str_field, json_str_field_of,
};
use crate::textutil::views_of;

verus! {

/// One validated tool call: the tool's name, the action, and the parameters
/// document as compact JSON text ("null" when the field was absent).
pub struct ToolInvocation {
    pub tool: String,
    pub action: String,
    pub parameters: String,
}

/// The mathematical shadow of a `ToolInvocation`.
pub ghost struct CallV {
    pub tool: Seq<char>,
    pub action: Seq<char>,
    pub parameters: Seq<char>,
}

impl View for ToolInvocation {
    type V = CallV;

    open spec fn view(&self) -> CallV {
        CallV { tool: self.tool@, action: self.action@, parameters: self.parameters@ }
    }
}

/// The views of a sequence of owned invocations.
pub open spec fn call_views(v: Seq<ToolInvocation>) -> Seq<CallV> {
    v.map_values(|c: ToolInvocation| c@)
}

/// The parameters text of document `s`: its "parameters" field, or "null".
pub open spec fn params_text_of(s: Seq<char>) -> Seq<char> {
    match json_field_text_of(s, "parameters"@) {
        Some(p) => p,
        None => "null"@,
    }
}

/// The call that document `s` denotes, if `s` parses and carries
/// string-valued "tool" and "action" fields.
pub open spec fn object_call_of(s: Seq<char>) -> Option<CallV> {
    if json_parses(s) {
        match (json_str_field_of(s, "tool"@), json_str_field_of(s, "action"@)) {
            (Some(t), Some(a)) => Some(
                CallV { tool: t, action: a, parameters: params_text_of(s) },
            ),
            _ => None,
        }
    } else {
        None
    }
}

/// The calls contributed by the members of an array, in array order.
pub open spec fn array_calls_of(items: Seq<Seq<char>>) -> Seq<CallV>
    decreases items.len(),
{
    if items.len() == 0 {
        Seq::empty()
    } else {
        let head = match object_call_of(items[0]) {
            Some(c) => seq![c],
            None => Seq::empty(),
        };
        head + array_calls_of(items.drop_first())
    }
}

/// The calls one extracted candidate contributes: a parsing document is kept
/// only when it is a valid call; a non-document is retried as an array.
pub open spec fn candidate_calls_of(s: Seq<char>) -> Seq<CallV> {
    if json_parses(s) {
        match object_call_of(s) {
            Some(c) => seq![c],
            None => Seq::empty(),
        }
    } else {
        match json_array_items_of(s) {
            Some(items) => array_calls_of(items),
            None => Seq::empty(),
        }
    }
}

/// All calls of a candidate list, in source order.
pub open spec fn calls_of_candidates(cands: Seq<Seq<char>>) -> Seq<CallV>
    decreases cands.len(),
{
    if cands.len() == 0 {
        Seq::empty()
    } else {
        candidate_calls_of(cands[0]) + calls_of_candidates(cands.drop_first())
    }
}

/// The validated tool calls of a free-text response: extraction, then
/// per-candidate validation, preserving source order.
pub open spec fn parsed_calls_of(text: Seq<char>) -> Seq<CallV> {
    calls_of_candidates(extraction(text))
}

proof fn lemma_calls_of_candidates_snoc(cands: Seq<Seq<char>>, c: Seq<char>)
    ensures
        calls_of_candidates(cands.push(c)) == calls_of_candidates(cands) + candidate_calls_of(c),
    decreases cands.len(),
{
    if cands.len() == 0 {
        assert(cands.push(c)[0] == c);
        assert(cands.push(c).drop_first() =~= Seq::<Seq<char>>::empty());
        assert(calls_of_candidates(Seq::<Seq<char>>::empty()) =~= Seq::<CallV>::empty());
        assert(calls_of_candidates(cands.push(c)) =~= candidate_calls_of(c));
        assert(calls_of_candidates(cands) + candidate_calls_of(c) =~= candidate_calls_of(c));
    } else {
        assert(cands.push(c)[0] == cands[0]);
        assert(cands.push(c).drop_first() =~= cands.drop_first().push(c));
        lemma_calls_of_candidates_snoc(cands.drop_first(), c);
        assert(candidate_calls_of(cands[0]) + (calls_of_candidates(cands.drop_first())
            + candidate_calls_of(c)) =~= calls_of_candidates(cands) + candidate_calls_of(c));
    }
}

proof fn lemma_array_calls_snoc(items: Seq<Seq<char>>, x: Seq<char>)
    ensures
        array_calls_of(items.push(x)) == array_calls_of(items) + (match object_call_of(x) {
            Some(c) => seq![c],
            None => Seq::<CallV>::empty(),
        }),
    decreases items.len(),
{
    let tail = match object_call_of(x) {
        Some(c) => seq![c],
        None => Seq::<CallV>::empty(),
    };
    if items.len() == 0 {
        assert(items.push(x)[0] == x);
        assert(items.push(x).drop_first() =~= Seq::<Seq<char>>::empty());
        assert(array_calls_of(Seq::<Seq<char>>::empty()) =~= Seq::<CallV>::empty());
        assert(array_calls_of(items.push(x)) =~= tail);
        assert(array_calls_of(items) + tail =~= tail);
    } else {
        assert(items.push(x)[0] == items[0]);
        assert(items.push(x).drop_first() =~= items.drop_first().push(x));
        lemma_array_calls_snoc(items.drop_first(), x);
        let head = match object_call_of(items[0]) {
            Some(c) => seq![c],
            None => Seq::<CallV>::empty(),
        };
        assert(head + (array_calls_of(items.drop_first()) + tail) =~= array_calls_of(items)
            + tail);
    }
}

/// Law: a JSON document without a string-valued "tool" field, or without a
/// string-valued "action" field, contributes no call at all.
pub proof fn lemma_invalid_object_dropped(s: Seq<char>)
    requires
        json_parses(s),
        json_str_field_of(s, "tool"@) is None || json_str_field_of(s, "action"@) is None,
    ensures
        candidate_calls_of(s) == Seq::<CallV>::empty(),
{
}

/// Law: an array contributes exactly its valid members' calls, in array
/// order — a member that is no valid call adds nothing at its position.
pub proof fn lemma_array_members_in_order(items: Seq<Seq<char>>, i: int)
    requires
        0 <= i < items.len(),
    ensures
        array_calls_of(items.take(i + 1)) == array_calls_of(items.take(i)) + (match object_call_of(
            items[i],
        ) {
            Some(c) => seq![c],
            None => Seq::<CallV>::empty(),
        }),
{
    lemma_array_calls_snoc(items.take(i), items[i]);
    assert(items.take(i).push(items[i]) =~= items.take(i + 1));
}

/// Reads document text `s` as one call when it is valid.
fn decode_object_call(s: &str) -> (r: Option<ToolInvocation>)
    ensures
        match r {
            Some(c) => object_call_of(s@) == Some(c@),
            None => object_call_of(s@) is None,
        },
{
    let tool = json_str_field(s, "tool");
    let action = json_str_field(s, "action");
    match (tool, action) {
        (Some(t), Some(a)) => {
            let params = match json_field_text(s, "parameters") {
                Some(p) => p,
                None => String::from_str("null"),
            };
            Some(ToolInvocation { tool: t, action: a, parameters: params })
        },
        _ => None,
    }
}

impl JsonParser {
    /// Whether `json_text` is a JSON document with string-valued "tool" and
    /// "action" fields, i.e. denotes a tool call.
    pub fn is_valid_tool_call(&self, json_text: &str) -> (r: bool)
        ensures
            r == (object_call_of(json_text@) is Some),
    {
        let tool = json_str_field(json_text, "tool");
        let action = json_str_field(json_text, "action");
        tool.is_some() && action.is_some()
    }

    /// Extracts and validates every tool call in `response`, in source order.
    pub fn parse_tool_calls(&self, response: &str) -> (r: Vec<ToolInvocation>)
        ensures
            call_views(r@) == parsed_calls_of(response@),
    {
        let candidates = self.extract_all_json(response);
        let mut out: Vec<ToolInvocation> = Vec::new();
        let mut i: usize = 0;
        proof {
            assert(views_of(candidates@).take(0) =~= Seq::<Seq<char>>::empty());
            assert(call_views(out@) =~= calls_of_candidates(views_of(candidates@).take(0)));
        }
        while i < candidates.len()
            invariant
                views_of(candidates@) == extraction(response@),
                i <= candidates@.len(),
                call_views(out@) == calls_of_candidates(views_of(candidates@).take(i as int)),
            decreases candidates@.len() - i,
        {
            let ghost done = views_of(candidates@).take(i as int);
            let cand = &candidates[i];
            let ghost out0 = out@;
            if json_is_doc(cand.as_str()) {
                match decode_object_call(cand.as_str()) {
                    Some(c) => {
                        out.push(c);
                        proof {
                            assert(call_views(out@) =~= call_views(out0) + candidate_calls_of(
                                cand@,
                            ));
                        }
                    },
                    None => {
                        proof {
                            assert(candidate_calls_of(cand@) =~= Seq::<CallV>::empty());
                            assert(call_views(out@) =~= call_views(out0) + candidate_calls_of(
                                cand@,
                            ));
                        }
                    },
                }
            } else {
                match json_array_items(cand.as_str()) {
                    Some(items) => {
                        let mut j: usize = 0;
                        proof {
                            assert(views_of(items@).take(0) =~= Seq::<Seq<char>>::empty());
                            assert(call_views(out@) =~= call_views(out0) + array_calls_of(
                                views_of(items@).take(0),
                            ));
                        }
                        while j < items.len()
                            invariant
                                json_array_items_of(cand@) == Some(views_of(items@)),
                                j <= items@.len(),
                                call_views(out@) == call_views(out0) + array_calls_of(
                                    views_of(items@).take(j as int),
                                ),
                            decreases items@.len() - j,
                        {
                            let ghost outj = out@;
                            let item = &items[j];
                            match decode_object_call(item.as_str()) {
                                Some(c) => {
                                    out.push(c);
                                },
                                None => {},
                            }
                            proof {
                                lemma_array_calls_snoc(views_of(items@).take(j as int), item@);
                                assert(views_of(items@).take(j as int).push(item@) =~= views_of(
                                    items@,
                                ).take(j as int + 1));
                                if object_call_of(item@) is Some {
                                    assert(call_views(out@) =~= call_views(outj) + seq![
                                        object_call_of(item@)->Some_0,
                                    ]);
                                } else {
                                    assert(call_views(out@) =~= call_views(outj));
                                    assert(call_views(outj) + Seq::<CallV>::empty() =~= call_views(
                                        outj,
                                    ));
                                }
                            }
                            j = j + 1;
                        }
                        proof {
                            assert(views_of(items@).take(items@.len() as int) =~= views_of(
                                items@,
                            ));
                        }
                    },
                    None => {
                        proof {
                            assert(candidate_calls_of(cand@) =~= Seq::<CallV>::empty());
                        }
                    },
                }
                proof {
                    assert(call_views(out@) =~= call_views(out0) + candidate_calls_of(cand@));
                }
            }
            proof {
                lemma_calls_of_candidates_snoc(done, cand@);
                assert(done.push(cand@) =~= views_of(candidates@).take(i as int + 1));
            }
            i = i + 1;
        }
        proof {
            assert(views_of(candidates@).take(candidates@.len() as int) =~= views_of(
                candidates@,
            ));
        }
        out
    }
}

} // verus!
