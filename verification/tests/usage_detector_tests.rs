use aigenda::detector::ContinuationDetector;
use aigenda::memory::{ConversationMemory, ToolCall};

fn call(tool: &str, action: &str) -> ToolCall {
    ToolCall {
        id: "i".to_string(),
        tool_name: tool.to_string(),
        action: action.to_string(),
        parameters: "null".to_string(),
        timestamp: "2025-09-28T10:00:00+00:00".to_string(),
    }
}

#[test]
fn recent_usage_dedups_newest_first() {
    let mut m = ConversationMemory::new(50, 100000);
    m.add_assistant_message("one".to_string(), Some(vec![call("notes", "create")]));
    m.add_assistant_message("two".to_string(), Some(vec![call("notes", "read")]));
    m.add_assistant_message("three".to_string(), Some(vec![call("notes", "create")]));
    let got = m.get_recent_tool_usage();
    assert_eq!(got, vec!["notes.create".to_string(), "notes.read".to_string()]);
}

#[test]
fn recent_usage_window_is_five_messages() {
    let mut m = ConversationMemory::new(50, 100000);
    m.add_assistant_message("old".to_string(), Some(vec![call("notes", "delete")]));
    for i in 0..5 {
        m.add_user_message(format!("filler {}", i));
    }
    m.add_assistant_message("new".to_string(), Some(vec![call("notes", "read")]));
    // only five newest messages are scanned; the delete is out of the window
    let got = m.get_recent_tool_usage();
    assert_eq!(got, vec!["notes.read".to_string()]);
}

#[test]
fn recent_usage_empty_without_calls() {
    let mut m = ConversationMemory::new(50, 100000);
    m.add_user_message("hi".to_string());
    assert_eq!(m.get_recent_tool_usage().len(), 0);
}

#[test]
fn continuation_positive() {
    let d = ContinuationDetector;
    assert!(d.should_continue("Let me also check the date."));
}

#[test]
fn continuation_negative() {
    let d = ContinuationDetector;
    assert!(!d.should_continue("Done! Your note has been added."));
}

#[test]
fn continuation_is_case_insensitive() {
    let d = ContinuationDetector;
    assert!(d.should_continue("ADDITIONALLY, there is more to do."));
}

#[test]
fn continuation_all_phrases() {
    let d = ContinuationDetector;
    assert!(d.should_continue("I'll also update it."));
    assert!(d.should_continue("Next, I'll read the notes."));
    assert!(d.should_continue("I need to check something."));
    assert!(d.should_continue("I should also verify."));
    assert!(d.should_continue("Now I'll save it."));
    assert!(d.should_continue("Then I'll stop."));
    assert!(!d.should_continue("All finished."));
}
