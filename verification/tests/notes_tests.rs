use aigenda::errors::AppError;
use aigenda::models::{DayLog, Note};
use aigenda::notes::{
    build_notes_schema, create_note_message, delete_note_in_day, parse_notes_request,
    render_day_notes, render_recent_notes, resolve_target_date, update_note_in_day, NotesCommand,
};

fn note(when: &str, text: &str) -> Note {
    Note { when: when.to_string(), text: text.to_string(), tags: Vec::new() }
}

#[test]
fn parse_create_with_optional_date() {
    let r = parse_notes_request("create", "{\"text\": \"hello\", \"date\": \"2025-09-28\"}");
    match r {
        Ok(NotesCommand::Create { text, date }) => {
            assert_eq!(text, "hello");
            assert_eq!(date, Some("2025-09-28".to_string()));
        },
        _ => panic!("expected a create command"),
    }
}

#[test]
fn parse_create_missing_text_fails() {
    let r = parse_notes_request("create", "{\"date\": \"2025-09-28\"}");
    match r {
        Err(AppError::Storage(m)) => assert_eq!(m, "Missing text parameter"),
        _ => panic!("expected the missing-text error"),
    }
}

#[test]
fn parse_read_with_limit() {
    let r = parse_notes_request("read", "{\"limit\": 7}");
    match r {
        Ok(NotesCommand::Read { date, limit }) => {
            assert_eq!(date, None);
            assert_eq!(limit, Some(7));
        },
        _ => panic!("expected a read command"),
    }
}

#[test]
fn parse_update_maps_one_based_index() {
    let r = parse_notes_request(
        "update",
        "{\"date\": \"2025-09-28\", \"index\": 2, \"text\": \"new\"}",
    );
    match r {
        Ok(NotesCommand::Update { date, index, text }) => {
            assert_eq!(date, "2025-09-28");
            assert_eq!(index, 1);
            assert_eq!(text, "new");
        },
        _ => panic!("expected an update command"),
    }
}

#[test]
fn parse_update_index_zero_saturates() {
    let r = parse_notes_request(
        "update",
        "{\"date\": \"2025-09-28\", \"index\": 0, \"text\": \"new\"}",
    );
    match r {
        Ok(NotesCommand::Update { index, .. }) => assert_eq!(index, 0),
        _ => panic!("expected an update command"),
    }
}

#[test]
fn parse_delete_missing_index_fails() {
    let r = parse_notes_request("delete", "{\"date\": \"2025-09-28\"}");
    match r {
        Err(AppError::Storage(m)) => assert_eq!(m, "Missing index parameter"),
        _ => panic!("expected the missing-index error"),
    }
}

#[test]
fn parse_update_missing_date_fails() {
    let r = parse_notes_request("update", "{\"index\": 1, \"text\": \"x\"}");
    match r {
        Err(AppError::Storage(m)) => assert_eq!(m, "Missing date parameter"),
        _ => panic!("expected the missing-date error"),
    }
}

#[test]
fn parse_unknown_action_fails() {
    let r = parse_notes_request("rename", "null");
    match r {
        Err(AppError::Storage(m)) => assert_eq!(m, "Unknown action: rename"),
        _ => panic!("expected the unknown-action error"),
    }
}

#[test]
fn resolve_date_canonicalizes() {
    let r = resolve_target_date(Some("2025-9-8")).unwrap();
    assert_eq!(r, "2025-09-08");
}

#[test]
fn resolve_bad_date_is_a_parse_error() {
    let r = resolve_target_date(Some("not-a-date"));
    assert!(matches!(r, Err(AppError::ChronoParse(_))));
}

#[test]
fn create_message_names_the_date() {
    assert_eq!(create_note_message("2025-09-28"), "Note added successfully for 2025-09-28");
}

#[test]
fn update_note_replaces_and_reports() {
    let mut day = DayLog::new("2025-09-28".to_string());
    day.add_note(note("2025-09-28T08:00:00+00:00", "old"));
    let r = update_note_in_day(&mut day, 0, "new").unwrap();
    assert_eq!(r, "Note 1 updated successfully for 2025-09-28");
    assert_eq!(day.notes()[0].text(), "new");
}

#[test]
fn update_out_of_range_is_not_found() {
    let mut day = DayLog::new("2025-09-28".to_string());
    day.add_note(note("2025-09-28T08:00:00+00:00", "only"));
    let r = update_note_in_day(&mut day, 2, "new");
    match r {
        Err(AppError::Storage(m)) => assert_eq!(m, "Note 3 not found for 2025-09-28"),
        _ => panic!("expected the not-found error"),
    }
    assert_eq!(day.notes()[0].text(), "only");
}

#[test]
fn delete_note_removes_and_reports() {
    let mut day = DayLog::new("2025-09-28".to_string());
    day.add_note(note("2025-09-28T08:00:00+00:00", "a"));
    day.add_note(note("2025-09-28T09:00:00+00:00", "b"));
    let r = delete_note_in_day(&mut day, 0).unwrap();
    assert_eq!(r, "Note 1 deleted successfully from 2025-09-28");
    assert_eq!(day.notes().len(), 1);
    assert_eq!(day.notes()[0].text(), "b");
}

#[test]
fn delete_out_of_range_is_not_found() {
    let mut day = DayLog::new("2025-09-28".to_string());
    let r = delete_note_in_day(&mut day, 0);
    match r {
        Err(AppError::Storage(m)) => assert_eq!(m, "Note 1 not found for 2025-09-28"),
        _ => panic!("expected the not-found error"),
    }
}

#[test]
fn render_day_lists_numbered_notes() {
    let mut day = DayLog::new("2025-09-28".to_string());
    day.add_note(note("2025-09-28T20:45:00+00:00", "hello"));
    day.add_note(note("2025-09-28T21:05:00+00:00", "world"));
    let r = render_day_notes(&day, None);
    assert_eq!(r, "Notes for 2025-09-28:\n1. [20:45] hello\n2. [21:05] world\n");
}

#[test]
fn render_day_honours_the_limit() {
    let mut day = DayLog::new("2025-09-28".to_string());
    day.add_note(note("2025-09-28T20:45:00+00:00", "hello"));
    day.add_note(note("2025-09-28T21:05:00+00:00", "world"));
    let r = render_day_notes(&day, Some(1));
    assert_eq!(r, "Notes for 2025-09-28:\n1. [20:45] hello\n");
}

#[test]
fn render_day_empty_is_no_notes() {
    let day = DayLog::new("2025-09-28".to_string());
    assert_eq!(render_day_notes(&day, None), "No notes found for 2025-09-28");
}

#[test]
fn render_day_converts_offsets_to_utc() {
    let mut day = DayLog::new("2025-09-28".to_string());
    day.add_note(note("2025-09-28T20:45:00+02:00", "shifted"));
    let r = render_day_notes(&day, None);
    assert_eq!(r, "Notes for 2025-09-28:\n1. [18:45] shifted\n");
}

#[test]
fn recent_notes_newest_day_and_note_first() {
    let mut day1 = DayLog::new("2025-09-27".to_string());
    day1.add_note(note("2025-09-27T08:00:00+00:00", "older"));
    let mut day2 = DayLog::new("2025-09-28".to_string());
    day2.add_note(note("2025-09-28T08:00:00+00:00", "morning"));
    day2.add_note(note("2025-09-28T20:00:00+00:00", "evening"));
    let days = vec![day1, day2];
    let r = render_recent_notes(&days, None);
    assert_eq!(
        r,
        "Recent notes:\n[2025-09-28 20:00] evening\n[2025-09-28 08:00] morning\n[2025-09-27 08:00] older\n",
    );
}

#[test]
fn recent_notes_cap_applies_across_days() {
    let mut day1 = DayLog::new("2025-09-27".to_string());
    day1.add_note(note("2025-09-27T08:00:00+00:00", "older"));
    let mut day2 = DayLog::new("2025-09-28".to_string());
    day2.add_note(note("2025-09-28T08:00:00+00:00", "newer"));
    let days = vec![day1, day2];
    let r = render_recent_notes(&days, Some(1));
    assert_eq!(r, "Recent notes:\n[2025-09-28 08:00] newer\n");
}

#[test]
fn recent_notes_empty_is_no_notes() {
    let days: Vec<DayLog> = Vec::new();
    assert_eq!(render_recent_notes(&days, None), "No notes found");
}

#[test]
fn notes_schema_renders_its_shape() {
    let schema = build_notes_schema();
    let block = schema.to_prompt_format();
    assert!(block.starts_with("### notes Tool (Internal CRUD)\n"));
    assert!(block.contains("- `create`: Add a new note to today's log or a specific date\n"));
    assert!(block.contains("`text` (string(max: 5000))"));
    assert!(block.contains("`limit` (integer(1-100))"));
    assert!(block.contains("Default: `10`"));
    assert!(block.contains(" **(required)**"));
    assert!(block.contains("date (YYYY-MM-DD)"));
    assert!(block.contains("**Examples**:"));
    assert!(block.contains("Possible errors: Note not found, Invalid date format, Invalid index"));
}
