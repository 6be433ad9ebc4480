use aigenda::memory::{ConversationMemory, MessageRole, ToolCall, ToolResult};

fn call(tool: &str, action: &str) -> ToolCall {
    ToolCall {
        id: "id-1".to_string(),
        tool_name: tool.to_string(),
        action: action.to_string(),
        parameters: "{\"text\":\"x\"}".to_string(),
        timestamp: "2025-09-28T20:45:00+00:00".to_string(),
    }
}

fn result(tool: &str, action: &str, text: &str, ok: bool, ms: u64) -> ToolResult {
    ToolResult {
        call_id: "id-1".to_string(),
        tool_name: tool.to_string(),
        action: action.to_string(),
        result: text.to_string(),
        success: ok,
        timestamp: "2025-09-28T20:45:01+00:00".to_string(),
        execution_time_ms: ms,
    }
}

#[test]
fn token_estimate_is_length_over_four() {
    let mut m = ConversationMemory::new(10, 1000);
    m.add_user_message("abcdefgh".to_string());
    assert_eq!(m.context_token_count(), 2);
    assert_eq!(m.message_count(), 1);
}

#[test]
fn eviction_by_message_count_drops_oldest() {
    let mut m = ConversationMemory::new(2, 1000);
    m.add_user_message("first".to_string());
    m.add_user_message("second".to_string());
    m.add_user_message("third".to_string());
    assert_eq!(m.message_count(), 2);
    let ctx = m.get_context_for_prompt(false);
    assert!(!ctx.contains("first"));
    assert!(ctx.contains("second"));
    assert!(ctx.contains("third"));
}

#[test]
fn eviction_by_token_budget_drops_oldest() {
    let mut m = ConversationMemory::new(10, 2);
    m.add_user_message("abcdefgh".to_string());
    m.add_user_message("ijklmnop".to_string());
    assert_eq!(m.message_count(), 1);
    assert!(m.context_token_count() <= 2);
    let ctx = m.get_context_for_prompt(false);
    assert!(ctx.contains("ijklmnop"));
}

#[test]
fn eviction_respects_both_ceilings() {
    let mut m = ConversationMemory::new(3, 5);
    for i in 0..10 {
        m.add_user_message(format!("message number {}", i));
        assert!(m.message_count() <= 3);
        assert!(m.context_token_count() <= 5);
    }
}

#[test]
fn snapshot_restore_roundtrip_keeps_messages() {
    let mut m = ConversationMemory::new(50, 8000);
    m.add_user_message("hello there".to_string());
    m.add_assistant_message("doing it".to_string(), Some(vec![call("notes", "create")]));
    m.add_tool_results(vec![result("notes", "create", "done", true, 7)]);
    let snap = m.snapshot();
    let m2 = ConversationMemory::from_messages(snap, 50, 8000).unwrap();
    assert_eq!(m2.message_count(), m.message_count());
    assert_eq!(m2.context_token_count(), m.context_token_count());
    assert_eq!(m2.get_context_for_prompt(true), m.get_context_for_prompt(true));
}

#[test]
fn restore_does_not_retrim_until_next_insertion() {
    let mut m = ConversationMemory::new(10, 1000);
    m.add_user_message("one".to_string());
    m.add_user_message("two".to_string());
    m.add_user_message("three".to_string());
    let snap = m.snapshot();
    let mut shrunk = ConversationMemory::from_messages(snap, 1, 1000).unwrap();
    assert_eq!(shrunk.message_count(), 3);
    shrunk.add_user_message("four".to_string());
    assert_eq!(shrunk.message_count(), 1);
    let ctx = shrunk.get_context_for_prompt(false);
    assert!(ctx.contains("four"));
}

#[test]
fn results_attach_to_latest_assistant_message() {
    let mut m = ConversationMemory::new(10, 1000);
    m.add_assistant_message("working".to_string(), Some(vec![call("notes", "create")]));
    m.add_tool_results(vec![result("notes", "create", "done", true, 42)]);
    let ctx = m.get_context_for_prompt(false);
    assert!(ctx.contains("\u{2713} notes.create: done (42ms)"));
}

#[test]
fn results_are_not_attached_to_a_user_message() {
    let mut m = ConversationMemory::new(10, 1000);
    m.add_user_message("hello".to_string());
    m.add_tool_results(vec![result("notes", "create", "done", true, 1)]);
    let ctx = m.get_context_for_prompt(false);
    assert!(!ctx.contains("done"));
}

#[test]
fn failed_result_renders_with_cross() {
    let mut m = ConversationMemory::new(10, 1000);
    m.add_assistant_message("working".to_string(), None);
    m.add_tool_results(vec![result("notes", "create", "Error: storage: boom", false, 3)]);
    let ctx = m.get_context_for_prompt(false);
    assert!(ctx.contains("\u{2717} notes.create: Error: storage: boom (3ms)"));
}

#[test]
fn context_rendering_is_exact() {
    let mut m = ConversationMemory::new(10, 1000);
    m.add_user_message("hi".to_string());
    m.add_assistant_message("ok".to_string(), Some(vec![call("notes", "create")]));
    m.add_tool_results(vec![result("notes", "create", "done", true, 5)]);
    let ctx = m.get_context_for_prompt(true);
    let expected = "## Conversation History\nPrevious messages and tool interactions:\n\n\
User: hi\n\
Assistant: ok\n  \u{2192} Called notes.create with: {\"text\":\"x\"}\n  \u{2713} notes.create: done (5ms)\n\
\n---\n\n";
    assert_eq!(ctx, expected);
}

#[test]
fn empty_memory_renders_empty_context() {
    let m = ConversationMemory::new(10, 1000);
    assert_eq!(m.get_context_for_prompt(true), "");
    assert_eq!(m.get_context_for_prompt(false), "");
}

#[test]
fn clear_resets_counters() {
    let mut m = ConversationMemory::new(10, 1000);
    m.add_user_message("something".to_string());
    m.clear();
    assert_eq!(m.message_count(), 0);
    assert_eq!(m.context_token_count(), 0);
}

#[test]
fn roles_render_with_their_prefixes() {
    let role = MessageRole::System;
    assert!(matches!(role, MessageRole::System));
    let mut m = ConversationMemory::new(10, 1000);
    m.add_user_message("question".to_string());
    let ctx = m.get_context_for_prompt(false);
    assert!(ctx.starts_with("User: question\n"));
}
