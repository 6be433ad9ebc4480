use aigenda::extractor::JsonParser;

#[test]
fn object_missing_tool_is_dropped() {
    let p = JsonParser::new();
    let calls = p.parse_tool_calls("{\"action\": \"create\"}");
    assert_eq!(calls.len(), 0);
}

#[test]
fn object_missing_action_is_dropped() {
    let p = JsonParser::new();
    let calls = p.parse_tool_calls("{\"tool\": \"notes\"}");
    assert_eq!(calls.len(), 0);
}

#[test]
fn non_string_tool_is_dropped() {
    let p = JsonParser::new();
    let calls = p.parse_tool_calls("{\"tool\": 5, \"action\": \"create\"}");
    assert_eq!(calls.len(), 0);
}

#[test]
fn valid_call_is_kept_with_compact_parameters() {
    let p = JsonParser::new();
    let calls = p.parse_tool_calls(
        "Sure! {\"tool\": \"notes\", \"action\": \"create\", \"parameters\": {\"text\": \"launch\"}} done",
    );
    assert_eq!(calls.len(), 1);
    assert_eq!(calls[0].tool, "notes");
    assert_eq!(calls[0].action, "create");
    assert_eq!(calls[0].parameters, "{\"text\":\"launch\"}");
}

#[test]
fn parameters_default_to_null_text() {
    let p = JsonParser::new();
    let calls = p.parse_tool_calls("{\"tool\": \"notes\", \"action\": \"read\"}");
    assert_eq!(calls.len(), 1);
    assert_eq!(calls[0].parameters, "null");
}

#[test]
fn array_of_calls_yields_valid_members_in_order() {
    let p = JsonParser::new();
    let text = "[{\"tool\": \"notes\", \"action\": \"read\"}, {\"nope\": 1}, {\"tool\": \"notes\", \"action\": \"create\"}]";
    let calls = p.parse_tool_calls(text);
    assert_eq!(calls.len(), 2);
    assert_eq!(calls[0].action, "read");
    assert_eq!(calls[1].action, "create");
}

#[test]
fn is_valid_tool_call_checks_both_fields() {
    let p = JsonParser::new();
    assert!(p.is_valid_tool_call("{\"tool\": \"notes\", \"action\": \"read\"}"));
    assert!(!p.is_valid_tool_call("{\"tool\": \"notes\"}"));
    assert!(!p.is_valid_tool_call("not json"));
}

#[test]
fn malformed_candidate_is_silently_discarded() {
    let p = JsonParser::new();
    let calls = p.parse_tool_calls("{\"tool\": \"notes\", } broken");
    assert_eq!(calls.len(), 0);
}
