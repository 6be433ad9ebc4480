use aigenda::chain::{
    build_iteration_result, extend_execution_context, fold_iteration, record_iteration,
    should_continue_iteration, ChainExecutor,
};
use aigenda::confirm::ConfirmationHandler;
use aigenda::errors::AppError;
use aigenda::executor::{CallOutcome, ToolExecutor};
use aigenda::memory::ConversationMemory;
use aigenda::models::{DayLog, Note};
use aigenda::notes::{create_note_message, parse_notes_request, NotesCommand};
use aigenda::textutil::{contains_sub, fmt_i64, fmt_u64, join_strings, str_eq};

#[test]
fn fold_separates_iterations_with_a_rule() {
    let mut full = String::new();
    fold_iteration(&mut full, "first");
    fold_iteration(&mut full, "second");
    assert_eq!(full, "first\n\n---\n\nsecond");
}

#[test]
fn iteration_result_appends_transcript_banner() {
    assert_eq!(build_iteration_result("reply", ""), "reply");
    assert_eq!(
        build_iteration_result("reply", "did it"),
        "reply\n\n**Tool Results:**\ndid it",
    );
}

#[test]
fn execution_context_labels_iterations() {
    let mut ctx = String::new();
    extend_execution_context(&mut ctx, 2, "worked");
    assert_eq!(ctx, "\nIteration 2:\nworked\n");
}

#[test]
fn chain_needs_both_tools_and_a_cue() {
    assert!(should_continue_iteration("ran a tool", "Let me also check."));
    assert!(!should_continue_iteration("", "Let me also check."));
    assert!(!should_continue_iteration("ran a tool", "All done."));
}

#[test]
fn ceiling_stops_the_chain() {
    let chain = ChainExecutor::new(5);
    assert!(chain.may_iterate(0));
    assert!(chain.may_iterate(4));
    assert!(!chain.may_iterate(5));
    assert!(!chain.may_iterate(6));
}

#[test]
fn accepts_only_yes_words() {
    let handler = ConfirmationHandler::new();
    assert!(handler.accepts("y"));
    assert!(handler.accepts("YES"));
    assert!(handler.accepts("  Yes  "));
    assert!(!handler.accepts(""));
    assert!(!handler.accepts("no"));
    assert!(!handler.accepts("yeah"));
}

#[test]
fn null_params_show_as_none() {
    let handler = ConfirmationHandler::new();
    assert_eq!(handler.render_params("null"), "none");
}

#[test]
fn params_are_pretty_printed() {
    let handler = ConfirmationHandler::new();
    let shown = handler.render_params("{\"text\":\"x\",\"n\":1}");
    assert!(shown.contains('\n'));
    assert!(shown.contains("\"text\": \"x\""));
}

#[test]
fn confirmation_prompt_names_the_call() {
    let handler = ConfirmationHandler::new();
    let q = handler.render_prompt("notes", "create", "null");
    assert!(q.contains("   Tool: notes\n"));
    assert!(q.contains("   Action: create\n"));
    assert!(q.contains("   Parameters: none\n"));
    assert!(q.ends_with("Do you want to proceed? [y/N]: "));
}

#[test]
fn error_messages_carry_their_prefix() {
    assert_eq!(AppError::Io("x".to_string()).message(), "io: x");
    assert_eq!(AppError::Json("y".to_string()).message(), "json: y");
    assert_eq!(AppError::ChronoParse("z".to_string()).message(), "parse date: z");
    assert_eq!(AppError::Storage("w".to_string()).message(), "storage: w");
}

#[test]
fn text_helpers_behave() {
    assert_eq!(fmt_u64(0), "0");
    assert_eq!(fmt_u64(12345), "12345");
    assert_eq!(fmt_i64(-42), "-42");
    assert_eq!(fmt_i64(7), "7");
    assert!(str_eq("abc", "abc"));
    assert!(!str_eq("abc", "abd"));
    assert!(contains_sub("hello world", "lo wo"));
    assert!(!contains_sub("hello", "world"));
    let parts = vec!["a".to_string(), "b".to_string(), "c".to_string()];
    assert_eq!(join_strings(&parts, ", "), "a, b, c");
    let empty: Vec<String> = Vec::new();
    assert_eq!(join_strings(&empty, ", "), "");
}

#[test]
fn one_command_chain_ends_after_one_iteration() {
    // user input with a model reply carrying exactly one create call and no
    // continuation cue
    let mut memory = ConversationMemory::new(50, 8000);
    memory.add_user_message("add a note about the launch".to_string());

    let reply = "I'll add that note for you.\n{\"tool\": \"notes\", \"action\": \"create\", \"parameters\": {\"text\": \"launch\"}}";
    let executor = ToolExecutor::new();
    let calls = executor.plan_calls(reply);
    assert_eq!(calls.len(), 1);
    assert_eq!(calls[0].tool, "notes");
    assert_eq!(calls[0].action, "create");

    // the tool's own work, simulated against an in-memory day log
    let parsed = parse_notes_request(&calls[0].action, &calls[0].parameters);
    let text = match parsed {
        Ok(NotesCommand::Create { text, date }) => {
            assert_eq!(date, None);
            text
        },
        _ => panic!("expected a create command"),
    };
    let mut day = DayLog::new("2025-09-28".to_string());
    day.add_note(Note::new(text));
    assert_eq!(day.notes().len(), 1);
    let confirmation = create_note_message("2025-09-28");

    let outcomes = vec![CallOutcome::Executed {
        result: Ok(confirmation.clone()),
        duration_ms: 3,
    }];
    let (recs, ress, transcript) = executor.assemble_batch(&calls, &outcomes);
    assert_eq!(ress.len(), 1);

    let iteration_result = build_iteration_result(reply, &transcript);
    let continue_chain = should_continue_iteration(&transcript, reply);
    assert!(!continue_chain);

    record_iteration(&mut memory, reply.to_string(), recs, ress);
    assert_eq!(memory.message_count(), 2);

    let mut full = String::new();
    fold_iteration(&mut full, &iteration_result);
    assert!(full.contains("I'll add that note for you."));
    assert!(full.contains("**Tool Results:**"));
    assert!(full.contains("Note added successfully for 2025-09-28"));

    let ctx = memory.get_context_for_prompt(false);
    assert!(ctx.contains("\u{2713} notes.create: Note added successfully for 2025-09-28"));
}
