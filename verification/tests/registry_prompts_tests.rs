use aigenda::memory::{ConversationMemory, ToolCall};
use aigenda::notes::build_notes_tool_info;
use aigenda::prompts::PromptGenerator;
use aigenda::registry::ToolRegistry;
use aigenda::schema::ToolCategory;
use aigenda::tools::{ToolAction, ToolInfo};

fn small_tool(name: &str, category: ToolCategory) -> ToolInfo {
    let mut info = build_notes_tool_info();
    info.name = name.to_string();
    info.schema.name = name.to_string();
    info.category = category;
    info.schema.category = category;
    info
}

#[test]
fn register_and_get_by_name() {
    let mut reg = ToolRegistry::new();
    reg.auto_discover_tools().unwrap();
    assert!(reg.get_tool("notes").is_some());
    assert!(reg.get_tool("missing").is_none());
    assert_eq!(reg.list_tools(), vec!["notes".to_string()]);
}

#[test]
fn register_overwrites_by_name() {
    let mut reg = ToolRegistry::new();
    let mut a = small_tool("notes", ToolCategory::Internal);
    a.description = "first".to_string();
    let mut b = small_tool("notes", ToolCategory::Internal);
    b.description = "second".to_string();
    reg.register_tool(a);
    reg.register_tool(b);
    assert_eq!(reg.list_tools().len(), 1);
    assert_eq!(reg.get_tool("notes").unwrap().description, "second");
}

#[test]
fn basic_description_lists_actions_and_parameters() {
    let mut reg = ToolRegistry::new();
    reg.auto_discover_tools().unwrap();
    let doc = reg.generate_tools_description();
    assert!(doc.contains("\n## notes Tool\n"));
    assert!(doc.contains("Description: Manage daily notes with full CRUD operations\n"));
    assert!(doc.contains("- create: Add a new note\n"));
    assert!(doc.contains("    - text (string): The note content (required)\n"));
    assert!(doc.contains("    - date (string): Date in YYYY-MM-DD format (defaults to today) (optional)\n"));
}

#[test]
fn enhanced_description_groups_by_category() {
    let mut reg = ToolRegistry::new();
    reg.register_tool(small_tool("notes", ToolCategory::Internal));
    reg.register_tool(small_tool("weather", ToolCategory::External));
    let doc = reg.generate_enhanced_tools_description();
    let internal_at = doc.find("## Internal Tools (Local CRUD Operations)\n").unwrap();
    let external_at = doc.find("## External Tools (API Integrations)\n").unwrap();
    assert!(internal_at < external_at);
    assert!(doc.contains("### notes Tool (Internal CRUD)"));
    assert!(doc.contains("### weather Tool (External API)"));
    assert!(!doc.contains("## System Tools\n"));
}

#[test]
fn enhanced_schemas_one_block_per_tool() {
    let mut reg = ToolRegistry::new();
    reg.auto_discover_tools().unwrap();
    let blocks = reg.get_enhanced_schemas();
    assert_eq!(blocks.len(), 1);
    assert!(blocks[0].starts_with("### notes Tool"));
}

#[test]
fn tool_action_builder_accumulates_parameters() {
    let a = ToolAction::new("create", "Add a new note")
        .with_parameter("text", "The note content", true, "string")
        .with_parameter("date", "The date", false, "string");
    assert_eq!(a.name, "create");
    assert_eq!(a.parameters.len(), 2);
    assert_eq!(a.parameters[0].name, "text");
    assert!(a.parameters[0].required);
    assert_eq!(a.parameters[1].name, "date");
    assert!(!a.parameters[1].required);
}

#[test]
fn initial_prompt_carries_request_context_and_hint() {
    let mut reg = ToolRegistry::new();
    reg.auto_discover_tools().unwrap();
    let mut mem = ConversationMemory::new(50, 8000);
    mem.add_assistant_message(
        "did something".to_string(),
        Some(vec![ToolCall {
            id: "i".to_string(),
            tool_name: "notes".to_string(),
            action: "create".to_string(),
            parameters: "null".to_string(),
            timestamp: "2025-09-28T10:00:00+00:00".to_string(),
        }]),
    );
    let gen = PromptGenerator::new();
    let prompt = gen.generate_initial_prompt("add a note", &mem, &reg).unwrap();
    assert!(prompt.contains("Current User Request: add a note\n"));
    assert!(prompt.contains("Recently used tools: notes.create\n"));
    assert!(prompt.contains("## Conversation History\n"));
    assert!(prompt.contains("### notes Tool (Internal CRUD)"));
    assert!(prompt.contains("## Chain of Thought Instructions:"));
    assert!(prompt.contains("\"Let me also...\""));
}

#[test]
fn initial_prompt_omits_hint_without_usage() {
    let mut reg = ToolRegistry::new();
    reg.auto_discover_tools().unwrap();
    let mem = ConversationMemory::new(50, 8000);
    let gen = PromptGenerator::new();
    let prompt = gen.generate_initial_prompt("hello", &mem, &reg).unwrap();
    assert!(!prompt.contains("Recently used tools:"));
}

#[test]
fn continuation_prompt_carries_hint_when_tools_were_used() {
    let mut reg = ToolRegistry::new();
    reg.auto_discover_tools().unwrap();
    let mut mem = ConversationMemory::new(50, 8000);
    mem.add_assistant_message(
        "done".to_string(),
        Some(vec![ToolCall {
            id: "i".to_string(),
            tool_name: "notes".to_string(),
            action: "read".to_string(),
            parameters: "null".to_string(),
            timestamp: "2025-09-28T10:00:00+00:00".to_string(),
        }]),
    );
    let gen = PromptGenerator::new();
    let prompt = gen.generate_continuation_prompt("ask", "history", &mem, &reg).unwrap();
    assert!(prompt.contains("Recently used tools: notes.read\n"));
}

#[test]
fn continuation_prompt_carries_history() {
    let mut reg = ToolRegistry::new();
    reg.auto_discover_tools().unwrap();
    let mem = ConversationMemory::new(50, 8000);
    let gen = PromptGenerator::new();
    let prompt = gen
        .generate_continuation_prompt("original ask", "\nIteration 1:\nstep one\n", &mem, &reg)
        .unwrap();
    assert!(prompt.contains("Original User Request: original ask\n"));
    assert!(prompt.contains("Execution History:\n\nIteration 1:\nstep one\n"));
    assert!(prompt.contains("## Continuation Instructions:"));
}
