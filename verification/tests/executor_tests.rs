use aigenda::calls::ToolInvocation;
use aigenda::executor::{CallOutcome, ToolExecutor};

fn invocation(tool: &str, action: &str, params: &str) -> ToolInvocation {
    ToolInvocation {
        tool: tool.to_string(),
        action: action.to_string(),
        parameters: params.to_string(),
    }
}

#[test]
fn decline_second_of_two_yields_one_result() {
    let ex = ToolExecutor::new();
    let calls = vec![
        invocation("notes", "create", "{\"text\":\"a\"}"),
        invocation("notes", "read", "null"),
    ];
    let outcomes = vec![
        CallOutcome::Executed { result: Ok("created".to_string()), duration_ms: 5 },
        CallOutcome::Declined,
    ];
    let (recs, ress, transcript) = ex.assemble_batch(&calls, &outcomes);
    assert_eq!(recs.len(), 1);
    assert_eq!(ress.len(), 1);
    assert_eq!(ress[0].call_id, recs[0].id);
    assert_eq!(recs[0].tool_name, "notes");
    assert_eq!(recs[0].action, "create");
    assert!(ress[0].success);
    assert_eq!(transcript, "created\nTool execution cancelled by user.");
}

#[test]
fn failed_execution_is_recorded_not_skipped() {
    let ex = ToolExecutor::new();
    let calls = vec![invocation("notes", "create", "null")];
    let outcomes = vec![
        CallOutcome::Executed { result: Err("storage: boom".to_string()), duration_ms: 9 },
    ];
    let (recs, ress, transcript) = ex.assemble_batch(&calls, &outcomes);
    assert_eq!(recs.len(), 1);
    assert_eq!(ress.len(), 1);
    assert!(!ress[0].success);
    assert_eq!(ress[0].result, "Error: storage: boom");
    assert_eq!(ress[0].execution_time_ms, 9);
    assert_eq!(transcript, "Error: storage: boom");
}

#[test]
fn empty_batch_is_not_an_error() {
    let ex = ToolExecutor::new();
    let calls = ex.plan_calls("no tool calls in this reply");
    assert_eq!(calls.len(), 0);
    let outcomes: Vec<CallOutcome> = Vec::new();
    let (recs, ress, transcript) = ex.assemble_batch(&calls, &outcomes);
    assert_eq!(recs.len(), 0);
    assert_eq!(ress.len(), 0);
    assert_eq!(transcript, "");
}

#[test]
fn plan_calls_extracts_and_validates() {
    let ex = ToolExecutor::new();
    let calls = ex.plan_calls(
        "First {\"tool\": \"notes\", \"action\": \"create\", \"parameters\": {\"text\": \"x\"}} then {\"bad\": 1}",
    );
    assert_eq!(calls.len(), 1);
    assert_eq!(calls[0].tool, "notes");
    assert_eq!(calls[0].parameters, "{\"text\":\"x\"}");
}

#[test]
fn fresh_ids_differ_between_calls() {
    let ex = ToolExecutor::new();
    let calls = vec![invocation("a", "x", "null"), invocation("b", "y", "null")];
    let outcomes = vec![
        CallOutcome::Executed { result: Ok("one".to_string()), duration_ms: 1 },
        CallOutcome::Executed { result: Ok("two".to_string()), duration_ms: 2 },
    ];
    let (recs, ress, transcript) = ex.assemble_batch(&calls, &outcomes);
    assert_eq!(recs.len(), 2);
    assert_ne!(recs[0].id, recs[1].id);
    assert_eq!(ress[0].call_id, recs[0].id);
    assert_eq!(ress[1].call_id, recs[1].id);
    assert_eq!(transcript, "one\ntwo");
}
