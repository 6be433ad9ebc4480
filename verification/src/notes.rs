//! The bundled notes tool's verified half: its declarative schema, the
//! parsing of an action and parameters document into a command, and the pure
//! parts of the CRUD actions — message building, day-log edits and note
//! rendering. Loading and saving a day's file is the host's side.

use vstd::prelude::*;
use vstd::string::*;
use crate::errors::AppError;
use crate::models::{DayLog, Note};
use crate::schema::{
    ActionSchema, ParameterSchema, ParameterType, ReturnSchema, ToolCategory, ToolExample,
    ToolSchema,
};
use crate::shims::{
    canon_date, canon_date_of, json_str_field, json_str_field_of, json_u64_field,
    json_u64_field_of, rfc3339_hhmm, rfc3339_hhmm_of, rfc3339_ymdhm, rfc3339_ymdhm_of, today_ymd,
};
use crate::textutil::{dec_rep, fmt_u64, str_eq};
use crate::tools::{ToolAction, ToolInfo};

verus! {

/// One parsed notes request.
pub enum NotesCommand {
    Create { text: String, date: Option<String> },
    Read { date: Option<String>, limit: Option<u32> },
    Update { date: String, index: u32, text: String },
    Delete { date: String, index: u32 },
}

pub open spec fn opt_view(o: Option<String>) -> Option<Seq<char>> {
    match o {
        Some(s) => Some(s@),
        None => None,
    }
}

/// Exactly what `parse_notes_request` returns for every action and
/// parameters document.
pub open spec fn parse_notes_post(
    action: Seq<char>,
    params: Seq<char>,
    r: Result<NotesCommand, AppError>,
) -> bool {
    if action == "create"@ {
        match json_str_field_of(params, "text"@) {
            Some(t) => r matches Ok(NotesCommand::Create { text, date }) && text@ == t
                && opt_view(date) == json_str_field_of(params, "date"@),
            None => r matches Err(AppError::Storage(m)) && m@ == "Missing text parameter"@,
        }
    } else if action == "read"@ {
        r matches Ok(NotesCommand::Read { date, limit }) && opt_view(date) == json_str_field_of(
            params,
            "date"@,
        ) && limit == (match json_u64_field_of(params, "limit"@) {
            Some(v) => Some(v as u32),
            None => None,
        })
    } else if action == "update"@ {
        match json_str_field_of(params, "date"@) {
            Some(d) => match json_u64_field_of(params, "index"@) {
                Some(ix) => match json_str_field_of(params, "text"@) {
                    Some(t) => r matches Ok(NotesCommand::Update { date, index, text })
                        && date@ == d && index == (ix as u32).saturating_sub(1) && text@ == t,
                    None => r matches Err(AppError::Storage(m)) && m@
                        == "Missing text parameter"@,
                },
                None => r matches Err(AppError::Storage(m)) && m@ == "Missing index parameter"@,
            },
            None => r matches Err(AppError::Storage(m)) && m@ == "Missing date parameter"@,
        }
    } else if action == "delete"@ {
        match json_str_field_of(params, "date"@) {
            Some(d) => match json_u64_field_of(params, "index"@) {
                Some(ix) => r matches Ok(NotesCommand::Delete { date, index }) && date@ == d
                    && index == (ix as u32).saturating_sub(1),
                None => r matches Err(AppError::Storage(m)) && m@ == "Missing index parameter"@,
            },
            None => r matches Err(AppError::Storage(m)) && m@ == "Missing date parameter"@,
        }
    } else {
        r matches Err(AppError::Storage(m)) && m@ == "Unknown action: "@ + action
    }
}

/// Parses one notes request: the action name and its parameters document.
/// The one-based indices of update and delete become zero-based here, an
/// index of zero staying at the first note.
pub fn parse_notes_request(action: &str, params: &str) -> (r: Result<NotesCommand, AppError>)
    ensures
        parse_notes_post(action@, params@, r),
{
    if str_eq(action, "create") {
        match json_str_field(params, "text") {
            Some(text) => {
                let date = json_str_field(params, "date");
                Ok(NotesCommand::Create { text: text, date: date })
            },
            None => Err(AppError::Storage(String::from_str("Missing text parameter"))),
        }
    } else if str_eq(action, "read") {
        let date = json_str_field(params, "date");
        let limit: Option<u32> = match json_u64_field(params, "limit") {
            Some(v) => Some(#[verifier::truncate] (v as u32)),
            None => None,
        };
        Ok(NotesCommand::Read { date: date, limit: limit })
    } else if str_eq(action, "update") {
        match json_str_field(params, "date") {
            Some(date) => match json_u64_field(params, "index") {
                Some(ix) => match json_str_field(params, "text") {
                    Some(text) => Ok(
                        NotesCommand::Update {
                            date: date,
                            index: (#[verifier::truncate] (ix as u32)).saturating_sub(1),
                            text: text,
                        },
                    ),
                    None => Err(AppError::Storage(String::from_str("Missing text parameter"))),
                },
                None => Err(AppError::Storage(String::from_str("Missing index parameter"))),
            },
            None => Err(AppError::Storage(String::from_str("Missing date parameter"))),
        }
    } else if str_eq(action, "delete") {
        match json_str_field(params, "date") {
            Some(date) => match json_u64_field(params, "index") {
                Some(ix) => Ok(
                    NotesCommand::Delete {
                        date: date,
                        index: (#[verifier::truncate] (ix as u32)).saturating_sub(1),
                    },
                ),
                None => Err(AppError::Storage(String::from_str("Missing index parameter"))),
            },
            None => Err(AppError::Storage(String::from_str("Missing date parameter"))),
        }
    } else {
        let mut m = String::from_str("Unknown action: ");
        m.append(action);
        Err(AppError::Storage(m))
    }
}

/// Resolves the requested date: a given date must parse as `YYYY-MM-DD` and
/// comes back in canonical form; no date means today.
pub fn resolve_target_date(date: Option<&str>) -> (r: Result<String, AppError>)
    ensures
        match date {
            Some(s) => match r {
                Ok(d) => canon_date_of(s@) == Some(d@),
                Err(e) => canon_date_of(s@) is None && e is ChronoParse,
            },
            None => r is Ok,
        },
{
    match date {
        Some(s) => match canon_date(s) {
            Ok(d) => Ok(d),
            Err(m) => Err(AppError::ChronoParse(m)),
        },
        None => Ok(today_ymd()),
    }
}

/// The confirmation text of a successful create.
pub fn create_note_message(date: &str) -> (r: String)
    ensures
        r@ == "Note added successfully for "@ + date@,
{
    let mut s = String::from_str("Note added successfully for ");
    s.append(date);
    s
}

/// Replaces the note at the zero-based `index` with a fresh note carrying
/// `text`, answering with the one-based position; an index past the end
/// leaves the day unchanged and is the not-found error.
pub fn update_note_in_day(day: &mut DayLog, index: u32, text: &str) -> (r: Result<
    String,
    AppError,
>)
    ensures
        if (index as int) < old(day).notes@.len() {
            &&& final(day).date == old(day).date
            &&& final(day).notes@.len() == old(day).notes@.len()
            &&& final(day).notes@[index as int].text@ == text@
            &&& (forall|j: int|
                0 <= j < old(day).notes@.len() && j != index as int ==> final(day).notes@[j]
                    == old(day).notes@[j])
            &&& r matches Ok(m) && m@ == "Note "@ + dec_rep((index + 1) as nat)
                + " updated successfully for "@ + old(day).date@
        } else {
            &&& *final(day) == *old(day)
            &&& r matches Err(AppError::Storage(m)) && m@ == "Note "@ + dec_rep(
                (index + 1) as nat,
            ) + " not found for "@ + old(day).date@
        },
{
    let position = fmt_u64((index as u64) + 1);
    if (index as usize) < day.notes.len() {
        let note = Note::new(String::from_str(text));
        day.set_note(index as usize, note);
        let mut m = String::from_str("Note ");
        m.append(position.as_str());
        m.append(" updated successfully for ");
        m.append(day.date.as_str());
        proof {
            assert(m@ =~= "Note "@ + dec_rep((index + 1) as nat) + " updated successfully for "@
                + old(day).date@);
        }
        Ok(m)
    } else {
        let mut m = String::from_str("Note ");
        m.append(position.as_str());
        m.append(" not found for ");
        m.append(day.date.as_str());
        proof {
            assert(m@ =~= "Note "@ + dec_rep((index + 1) as nat) + " not found for "@
                + old(day).date@);
        }
        Err(AppError::Storage(m))
    }
}

/// Deletes the note at the zero-based `index`, answering with the one-based
/// position; an index past the end leaves the day unchanged.
pub fn delete_note_in_day(day: &mut DayLog, index: u32) -> (r: Result<String, AppError>)
    ensures
        if (index as int) < old(day).notes@.len() {
            &&& final(day).date == old(day).date
            &&& final(day).notes@ == old(day).notes@.remove(index as int)
            &&& r matches Ok(m) && m@ == "Note "@ + dec_rep((index + 1) as nat)
                + " deleted successfully from "@ + old(day).date@
        } else {
            &&& *final(day) == *old(day)
            &&& r matches Err(AppError::Storage(m)) && m@ == "Note "@ + dec_rep(
                (index + 1) as nat,
            ) + " not found for "@ + old(day).date@
        },
{
    let position = fmt_u64((index as u64) + 1);
    if (index as usize) < day.notes.len() {
        let _removed = day.remove_note(index as usize);
        let mut m = String::from_str("Note ");
        m.append(position.as_str());
        m.append(" deleted successfully from ");
        m.append(day.date.as_str());
        proof {
            assert(m@ =~= "Note "@ + dec_rep((index + 1) as nat) + " deleted successfully from "@
                + old(day).date@);
        }
        Ok(m)
    } else {
        let mut m = String::from_str("Note ");
        m.append(position.as_str());
        m.append(" not found for ");
        m.append(day.date.as_str());
        proof {
            assert(m@ =~= "Note "@ + dec_rep((index + 1) as nat) + " not found for "@
                + old(day).date@);
        }
        Err(AppError::Storage(m))
    }
}

/// The `HH:MM` stamp of a note whose timestamp chrono accepts.
pub open spec fn note_hhmm(n: Note) -> Seq<char> {
    rfc3339_hhmm_of(n.when@)->Some_0
}

/// Whether every timestamp in the list is one chrono accepts.
pub open spec fn all_stamps_readable(notes: Seq<Note>) -> bool {
    forall|i: int| 0 <= i < notes.len() ==> rfc3339_hhmm_of((#[trigger] notes[i]).when@) is Some
}

/// The numbered note lines of one day, numbering from `k + 1`.
pub open spec fn day_lines_from(notes: Seq<Note>, k: nat) -> Seq<char>
    decreases notes.len(),
{
    if notes.len() == 0 {
        Seq::empty()
    } else {
        dec_rep(k + 1) + ". ["@ + note_hhmm(notes[0]) + "] "@ + notes[0].text@ + "\n"@
            + day_lines_from(notes.drop_first(), k + 1)
    }
}

/// What reading one day renders, for the notes actually shown.
pub open spec fn day_notes_report(date: Seq<char>, shown: Seq<Note>) -> Seq<char> {
    if shown.len() == 0 {
        "No notes found for "@ + date
    } else {
        "Notes for "@ + date + ":\n"@ + day_lines_from(shown, 0)
    }
}

proof fn lemma_day_lines_snoc(notes: Seq<Note>, k: nat, x: Note)
    ensures
        day_lines_from(notes.push(x), k) == day_lines_from(notes, k) + (dec_rep(
            k + notes.len() + 1,
        ) + ". ["@ + note_hhmm(x) + "] "@ + x.text@ + "\n"@),
    decreases notes.len(),
{
    let line = dec_rep(k + notes.len() + 1) + ". ["@ + note_hhmm(x) + "] "@ + x.text@ + "\n"@;
    if notes.len() == 0 {
        assert(notes.push(x)[0] == x);
        assert(notes.push(x).drop_first() =~= Seq::<Note>::empty());
        assert(day_lines_from(Seq::<Note>::empty(), k + 1) =~= Seq::<char>::empty());
        assert(day_lines_from(notes.push(x), k) =~= line);
        assert(day_lines_from(notes, k) + line =~= line);
    } else {
        assert(notes.push(x)[0] == notes[0]);
        assert(notes.push(x).drop_first() =~= notes.drop_first().push(x));
        lemma_day_lines_snoc(notes.drop_first(), (k + 1) as nat, x);
        let head = dec_rep(k + 1) + ". ["@ + note_hhmm(notes[0]) + "] "@ + notes[0].text@ + "\n"@;
        assert(head + (day_lines_from(notes.drop_first(), (k + 1) as nat) + line) =~=
            day_lines_from(notes, k) + line);
    }
}

/// Renders the notes of one day, at most `limit` of them when given, as the
/// read action answers. The rendering is pinned for every log whose
/// timestamps chrono accepts; a timestamp it rejects shows the current time
/// in its stamp instead.
pub fn render_day_notes(day: &DayLog, limit: Option<u32>) -> (r: String)
    ensures
        ({
            let shown = match limit {
                Some(l) => day.notes@.take(if (l as int) < day.notes@.len() {
                    l as int
                } else {
                    day.notes@.len() as int
                }),
                None => day.notes@,
            };
            all_stamps_readable(shown) ==> r@ == day_notes_report(day.date@, shown)
        }),
{
    let count: usize = match limit {
        Some(l) => {
            if (l as usize) < day.notes.len() {
                l as usize
            } else {
                day.notes.len()
            }
        },
        None => day.notes.len(),
    };
    let ghost shown = day.notes@.take(count as int);
    proof {
        match limit {
            Some(l) => {},
            None => {
                assert(day.notes@.take(count as int) =~= day.notes@);
            },
        }
    }
    if count == 0 {
        let mut s = String::from_str("No notes found for ");
        s.append(day.date.as_str());
        proof {
            assert(shown.len() == 0);
        }
        return s;
    }
    let mut s = String::from_str("Notes for ");
    s.append(day.date.as_str());
    s.append(":\n");
    let ghost head = s@;
    let mut i: usize = 0;
    proof {
        assert(shown.take(0) =~= Seq::<Note>::empty());
        assert(day_lines_from(Seq::<Note>::empty(), 0) =~= Seq::<char>::empty());
        assert(all_stamps_readable(shown) ==> s@ =~= head + day_lines_from(shown.take(0), 0));
    }
    while i < count
        invariant
            count <= day.notes@.len(),
            shown == day.notes@.take(count as int),
            i <= count,
            all_stamps_readable(shown) ==> s@ == head + day_lines_from(shown.take(i as int), 0),
        decreases count - i,
    {
        let ghost done = shown.take(i as int);
        let n = &day.notes[i];
        let position = fmt_u64((i as u64) + 1);
        let stamp = rfc3339_hhmm(n.when.as_str());
        s.append(position.as_str());
        s.append(". [");
        s.append(stamp.as_str());
        s.append("] ");
        s.append(n.text.as_str());
        s.append("\n");
        proof {
            if all_stamps_readable(shown) {
                assert(shown[i as int] == day.notes@[i as int]);
                assert(stamp@ == note_hhmm(shown[i as int]));
                lemma_day_lines_snoc(done, 0, shown[i as int]);
                assert(done.push(shown[i as int]) =~= shown.take(i as int + 1));
                assert(s@ =~= head + day_lines_from(shown.take(i as int + 1), 0));
            }
        }
        i = i + 1;
    }
    proof {
        assert(shown.take(count as int) =~= shown);
    }
    s
}

/// The (timestamp, text) pairs of one day's notes, newest first.
pub open spec fn rev_pairs(notes: Seq<Note>) -> Seq<(Seq<char>, Seq<char>)>
    decreases notes.len(),
{
    if notes.len() == 0 {
        Seq::empty()
    } else {
        seq![(notes.last().when@, notes.last().text@)] + rev_pairs(notes.drop_last())
    }
}

/// The note pairs across days, newest day first, each day's notes newest
/// first.
pub open spec fn recent_pairs(days: Seq<DayLog>) -> Seq<(Seq<char>, Seq<char>)>
    decreases days.len(),
{
    if days.len() == 0 {
        Seq::empty()
    } else {
        rev_pairs(days.last().notes@) + recent_pairs(days.drop_last())
    }
}

proof fn lemma_rev_pairs_cons(x: Note, rest: Seq<Note>)
    ensures
        rev_pairs(seq![x] + rest) == rev_pairs(rest) + seq![(x.when@, x.text@)],
    decreases rest.len(),
{
    let whole = seq![x] + rest;
    if rest.len() == 0 {
        assert(whole.last() == x);
        assert(whole.drop_last() =~= Seq::<Note>::empty());
        assert(rev_pairs(Seq::<Note>::empty()) =~= Seq::<(Seq<char>, Seq<char>)>::empty());
        assert(rev_pairs(whole) =~= seq![(x.when@, x.text@)]);
        assert(rev_pairs(rest) + seq![(x.when@, x.text@)] =~= seq![(x.when@, x.text@)]);
    } else {
        assert(whole.last() == rest.last());
        assert(whole.drop_last() =~= seq![x] + rest.drop_last());
        lemma_rev_pairs_cons(x, rest.drop_last());
        assert(seq![(rest.last().when@, rest.last().text@)] + (rev_pairs(rest.drop_last())
            + seq![(x.when@, x.text@)]) =~= rev_pairs(rest) + seq![(x.when@, x.text@)]);
    }
}

proof fn lemma_recent_pairs_cons(x: DayLog, rest: Seq<DayLog>)
    ensures
        recent_pairs(seq![x] + rest) == recent_pairs(rest) + rev_pairs(x.notes@),
    decreases rest.len(),
{
    let whole = seq![x] + rest;
    if rest.len() == 0 {
        assert(whole.last() == x);
        assert(whole.drop_last() =~= Seq::<DayLog>::empty());
        assert(recent_pairs(Seq::<DayLog>::empty()) =~= Seq::<(Seq<char>, Seq<char>)>::empty());
        assert(recent_pairs(whole) =~= rev_pairs(x.notes@));
        assert(recent_pairs(rest) + rev_pairs(x.notes@) =~= rev_pairs(x.notes@));
    } else {
        assert(whole.last() == rest.last());
        assert(whole.drop_last() =~= seq![x] + rest.drop_last());
        lemma_recent_pairs_cons(x, rest.drop_last());
        assert(rev_pairs(rest.last().notes@) + (recent_pairs(rest.drop_last()) + rev_pairs(
            x.notes@,
        )) =~= recent_pairs(rest) + rev_pairs(x.notes@));
    }
}

pub open spec fn pair_views(v: Seq<(String, String)>) -> Seq<(Seq<char>, Seq<char>)> {
    v.map_values(|p: (String, String)| (p.0@, p.1@))
}

/// Whether every timestamp among the pairs is one chrono accepts.
pub open spec fn all_pairs_readable(ps: Seq<(Seq<char>, Seq<char>)>) -> bool {
    forall|i: int| 0 <= i < ps.len() ==> rfc3339_ymdhm_of((#[trigger] ps[i]).0) is Some
}

/// The recent-notes lines of the shown pairs.
pub open spec fn recent_lines(ps: Seq<(Seq<char>, Seq<char>)>) -> Seq<char>
    decreases ps.len(),
{
    if ps.len() == 0 {
        Seq::empty()
    } else {
        "["@ + rfc3339_ymdhm_of(ps[0].0)->Some_0 + "] "@ + ps[0].1 + "\n"@ + recent_lines(
            ps.drop_first(),
        )
    }
}

/// What reading without a date renders, for the pairs actually shown.
pub open spec fn recent_report(shown: Seq<(Seq<char>, Seq<char>)>) -> Seq<char> {
    if shown.len() == 0 {
        "No notes found"@
    } else {
        "Recent notes:\n"@ + recent_lines(shown)
    }
}

proof fn lemma_recent_lines_snoc(ps: Seq<(Seq<char>, Seq<char>)>, x: (Seq<char>, Seq<char>))
    ensures
        recent_lines(ps.push(x)) == recent_lines(ps) + ("["@ + rfc3339_ymdhm_of(x.0)->Some_0
            + "] "@ + x.1 + "\n"@),
    decreases ps.len(),
{
    let line = "["@ + rfc3339_ymdhm_of(x.0)->Some_0 + "] "@ + x.1 + "\n"@;
    if ps.len() == 0 {
        assert(ps.push(x)[0] == x);
        assert(ps.push(x).drop_first() =~= Seq::<(Seq<char>, Seq<char>)>::empty());
        assert(recent_lines(Seq::<(Seq<char>, Seq<char>)>::empty()) =~= Seq::<char>::empty());
        assert(recent_lines(ps.push(x)) =~= line);
        assert(recent_lines(ps) + line =~= line);
    } else {
        assert(ps.push(x)[0] == ps[0]);
        assert(ps.push(x).drop_first() =~= ps.drop_first().push(x));
        lemma_recent_lines_snoc(ps.drop_first(), x);
        let head = "["@ + rfc3339_ymdhm_of(ps[0].0)->Some_0 + "] "@ + ps[0].1 + "\n"@;
        assert(head + (recent_lines(ps.drop_first()) + line) =~= recent_lines(ps) + line);
    }
}

/// Renders recent notes across days — newest day first, newest note first,
/// at most `limit` notes (ten when not given) — as the read action answers
/// when no date is requested. The rendering is pinned for timestamps chrono
/// accepts.
pub fn render_recent_notes(days: &Vec<DayLog>, limit: Option<u32>) -> (r: String)
    ensures
        ({
            let maxn = (match limit {
                Some(l) => l,
                None => 10u32,
            }) as int;
            let flat = recent_pairs(days@);
            let shown = flat.take(if maxn < flat.len() {
                maxn
            } else {
                flat.len() as int
            });
            all_pairs_readable(shown) ==> r@ == recent_report(shown)
        }),
{
    let max_count: u32 = match limit {
        Some(l) => l,
        None => 10,
    };
    // flatten newest-first
    let mut flat: Vec<(String, String)> = Vec::new();
    let mut d: usize = days.len();
    proof {
        assert(days@.skip(d as int) =~= Seq::<DayLog>::empty());
        assert(recent_pairs(Seq::<DayLog>::empty()) =~= Seq::<(Seq<char>, Seq<char>)>::empty());
        assert(pair_views(flat@) =~= recent_pairs(days@.skip(d as int)));
    }
    while d > 0
        invariant
            d <= days@.len(),
            pair_views(flat@) == recent_pairs(days@.skip(d as int)),
        decreases d,
    {
        d = d - 1;
        let day = &days[d];
        let ghost day_done = pair_views(flat@);
        let mut j: usize = day.notes.len();
        proof {
            assert(day.notes@.skip(j as int) =~= Seq::<Note>::empty());
            assert(rev_pairs(Seq::<Note>::empty()) =~= Seq::<(Seq<char>, Seq<char>)>::empty());
            assert(pair_views(flat@) =~= day_done + rev_pairs(day.notes@.skip(j as int)));
        }
        while j > 0
            invariant
                j <= day.notes@.len(),
                day == days@[d as int],
                d < days@.len(),
                day_done == recent_pairs(days@.skip(d as int + 1)),
                pair_views(flat@) == day_done + rev_pairs(day.notes@.skip(j as int)),
            decreases j,
        {
            j = j - 1;
            let ghost flat0 = flat@;
            let n = &day.notes[j];
            flat.push((n.when.clone(), n.text.clone()));
            proof {
                assert(day.notes@.skip(j as int) =~= seq![day.notes@[j as int]] + day.notes@.skip(
                    j as int + 1,
                ));
                lemma_rev_pairs_cons(day.notes@[j as int], day.notes@.skip(j as int + 1));
                assert(pair_views(flat@) =~= pair_views(flat0).push(
                    (day.notes@[j as int].when@, day.notes@[j as int].text@),
                ));
                assert(day_done + (rev_pairs(day.notes@.skip(j as int + 1)) + seq![
                    (day.notes@[j as int].when@, day.notes@[j as int].text@),
                ]) =~= (day_done + rev_pairs(day.notes@.skip(j as int + 1))).push(
                    (day.notes@[j as int].when@, day.notes@[j as int].text@),
                ));
            }
        }
        proof {
            assert(day.notes@.skip(0) =~= day.notes@);
            assert(days@.skip(d as int) =~= seq![days@[d as int]] + days@.skip(d as int + 1));
            lemma_recent_pairs_cons(days@[d as int], days@.skip(d as int + 1));
        }
    }
    proof {
        assert(days@.skip(0) =~= days@);
    }
    // render up to the cap
    let shown_count: usize = if (max_count as usize) < flat.len() {
        max_count as usize
    } else {
        flat.len()
    };
    let ghost shown = pair_views(flat@).take(shown_count as int);
    if shown_count == 0 {
        return String::from_str("No notes found");
    }
    let mut s = String::from_str("Recent notes:\n");
    let ghost head = s@;
    let mut i: usize = 0;
    proof {
        assert(shown.take(0) =~= Seq::<(Seq<char>, Seq<char>)>::empty());
        assert(recent_lines(Seq::<(Seq<char>, Seq<char>)>::empty()) =~= Seq::<char>::empty());
    }
    while i < shown_count
        invariant
            shown_count <= flat@.len(),
            shown == pair_views(flat@).take(shown_count as int),
            i <= shown_count,
            all_pairs_readable(shown) ==> s@ == head + recent_lines(shown.take(i as int)),
            head == "Recent notes:\n"@,
        decreases shown_count - i,
    {
        let ghost done = shown.take(i as int);
        let p = &flat[i];
        let stamp = rfc3339_ymdhm(p.0.as_str());
        s.append("[");
        s.append(stamp.as_str());
        s.append("] ");
        s.append(p.1.as_str());
        s.append("\n");
        proof {
            if all_pairs_readable(shown) {
                assert(shown[i as int] == (flat@[i as int].0@, flat@[i as int].1@));
                assert(stamp@ == rfc3339_ymdhm_of(shown[i as int].0)->Some_0);
                lemma_recent_lines_snoc(done, shown[i as int]);
                assert(done.push(shown[i as int]) =~= shown.take(i as int + 1));
                assert(s@ =~= head + recent_lines(shown.take(i as int + 1)));
            }
        }
        i = i + 1;
    }
    proof {
        assert(shown.take(shown_count as int) =~= shown);
    }
    s
}

/// The shape of the notes tool's schema: its name, category, four actions
/// with their parameters, and its worked examples.
pub open spec fn notes_schema_like(s: ToolSchema) -> bool {
    &&& s.name@ == "notes"@
    &&& s.category == ToolCategory::Internal
    &&& s.actions@.len() == 4
    &&& s.actions@[0].name@ == "create"@
    &&& s.actions@[0].parameters@.len() == 2
    &&& s.actions@[0].parameters@[0].name@ == "text"@
    &&& s.actions@[0].parameters@[0].required
    &&& s.actions@[0].parameters@[1].name@ == "date"@
    &&& !s.actions@[0].parameters@[1].required
    &&& s.actions@[1].name@ == "read"@
    &&& s.actions@[1].parameters@.len() == 2
    &&& s.actions@[1].parameters@[0].name@ == "date"@
    &&& !s.actions@[1].parameters@[0].required
    &&& s.actions@[1].parameters@[1].name@ == "limit"@
    &&& !s.actions@[1].parameters@[1].required
    &&& s.actions@[2].name@ == "update"@
    &&& s.actions@[2].parameters@.len() == 3
    &&& s.actions@[2].parameters@[0].name@ == "date"@
    &&& s.actions@[2].parameters@[0].required
    &&& s.actions@[2].parameters@[1].name@ == "index"@
    &&& s.actions@[2].parameters@[1].required
    &&& s.actions@[2].parameters@[2].name@ == "text"@
    &&& s.actions@[2].parameters@[2].required
    &&& s.actions@[3].name@ == "delete"@
    &&& s.actions@[3].parameters@.len() == 2
    &&& s.actions@[3].parameters@[0].name@ == "date"@
    &&& s.actions@[3].parameters@[0].required
    &&& s.actions@[3].parameters@[1].name@ == "index"@
    &&& s.actions@[3].parameters@[1].required
    &&& s.description@
        == "Manage daily notes with full CRUD operations. Notes are automatically organized by date and stored locally as JSON files."@
    &&& s.actions@[0].description@ == "Add a new note to today's log or a specific date"@
    &&& s.actions@[1].description@
        == "Read notes from a specific date or recent notes across multiple days"@
    &&& s.actions@[2].description@ == "Update an existing note by its position/index"@
    &&& s.actions@[3].description@ == "Delete a specific note by its position/index"@
    &&& s.examples@.len() == 3
}

/// The shape of the notes tool's registration record.
pub open spec fn notes_info_like(t: ToolInfo) -> bool {
    &&& t.name@ == "notes"@
    &&& t.description@ == "Manage daily notes with full CRUD operations"@
    &&& t.category == ToolCategory::Internal
    &&& notes_schema_like(t.schema)
    &&& t.actions@.len() == 4
    &&& t.actions@[0].name@ == "create"@
    &&& t.actions@[1].name@ == "read"@
    &&& t.actions@[2].name@ == "update"@
    &&& t.actions@[3].name@ == "delete"@
}

fn text_param(name: &str, description: &str, max_length: Option<u64>, required: bool) -> (r: ParameterSchema)
    ensures
        r.name@ == name@,
        r.required == required,
{
    ParameterSchema {
        name: String::from_str(name),
        description: String::from_str(description),
        param_type: ParameterType::Text { max_length: max_length },
        required: required,
        default_value: None,
        validation: None,
    }
}

fn date_param(description: &str, required: bool, default_value: Option<String>) -> (r: ParameterSchema)
    ensures
        r.name@ == "date"@,
        r.required == required,
{
    ParameterSchema {
        name: String::from_str("date"),
        description: String::from_str(description),
        param_type: ParameterType::Date,
        required: required,
        default_value: default_value,
        validation: None,
    }
}

fn string_return(description: &str, possible_errors: Vec<String>) -> (r: ReturnSchema) {
    ReturnSchema {
        description: String::from_str(description),
        return_type: ParameterType::Text { max_length: None },
        possible_errors: possible_errors,
    }
}

/// Builds the notes tool's declarative schema: four actions over daily
/// notes, with their parameters, returns and worked examples.
pub fn build_notes_schema() -> (r: ToolSchema)
    ensures
        notes_schema_like(r),
{
    let mut create_params: Vec<ParameterSchema> = Vec::new();
    create_params.push(text_param("text", "The content of the note", Some(5000), true));
    create_params.push(
        date_param(
            "Date for the note in YYYY-MM-DD format",
            false,
            Some(String::from_str("\"today\"")),
        ),
    );
    let mut create_errors: Vec<String> = Vec::new();
    create_errors.push(String::from_str("Invalid date format"));
    let create_action = ActionSchema {
        name: String::from_str("create"),
        description: String::from_str("Add a new note to today's log or a specific date"),
        parameters: create_params,
        returns: string_return(
            "Confirmation message with the date the note was added",
            create_errors,
        ),
    };

    let mut read_params: Vec<ParameterSchema> = Vec::new();
    read_params.push(date_param("Date in YYYY-MM-DD format to read notes from", false, None));
    read_params.push(
        ParameterSchema {
            name: String::from_str("limit"),
            description: String::from_str("Maximum number of notes to return"),
            param_type: ParameterType::Integer { min: Some(1), max: Some(100) },
            required: false,
            default_value: Some(String::from_str("10")),
            validation: None,
        },
    );
    let mut read_errors: Vec<String> = Vec::new();
    read_errors.push(String::from_str("Date not found"));
    read_errors.push(String::from_str("Invalid date format"));
    let read_action = ActionSchema {
        name: String::from_str("read"),
        description: String::from_str(
            "Read notes from a specific date or recent notes across multiple days",
        ),
        parameters: read_params,
        returns: string_return("List of notes with timestamps and content", read_errors),
    };

    let mut update_params: Vec<ParameterSchema> = Vec::new();
    update_params.push(date_param("Date of the note in YYYY-MM-DD format", true, None));
    update_params.push(
        ParameterSchema {
            name: String::from_str("index"),
            description: String::from_str("Position of the note to update (1-based index)"),
            param_type: ParameterType::Integer { min: Some(1), max: None },
            required: true,
            default_value: None,
            validation: None,
        },
    );
    update_params.push(text_param("text", "New content for the note", Some(5000), true));
    let mut update_errors: Vec<String> = Vec::new();
    update_errors.push(String::from_str("Note not found"));
    update_errors.push(String::from_str("Invalid date format"));
    update_errors.push(String::from_str("Invalid index"));
    let update_action = ActionSchema {
        name: String::from_str("update"),
        description: String::from_str("Update an existing note by its position/index"),
        parameters: update_params,
        returns: string_return("Confirmation message with the updated note details", update_errors),
    };

    let mut delete_params: Vec<ParameterSchema> = Vec::new();
    delete_params.push(date_param("Date of the note in YYYY-MM-DD format", true, None));
    delete_params.push(
        ParameterSchema {
            name: String::from_str("index"),
            description: String::from_str("Position of the note to delete (1-based index)"),
            param_type: ParameterType::Integer { min: Some(1), max: None },
            required: true,
            default_value: None,
            validation: None,
        },
    );
    let mut delete_errors: Vec<String> = Vec::new();
    delete_errors.push(String::from_str("Note not found"));
    delete_errors.push(String::from_str("Invalid date format"));
    delete_errors.push(String::from_str("Invalid index"));
    let delete_action = ActionSchema {
        name: String::from_str("delete"),
        description: String::from_str("Delete a specific note by its position/index"),
        parameters: delete_params,
        returns: string_return("Confirmation message with the deleted note details", delete_errors),
    };

    let mut actions: Vec<ActionSchema> = Vec::new();
    actions.push(create_action);
    actions.push(read_action);
    actions.push(update_action);
    actions.push(delete_action);

    let mut examples: Vec<ToolExample> = Vec::new();
    examples.push(
        ToolExample {
            description: String::from_str("Create a simple note for today"),
            user_request: String::from_str("add a note about finishing the AI implementation"),
            tool_call: String::from_str(
                "{\"action\":\"create\",\"parameters\":{\"text\":\"Finished implementing AI tools with enhanced memory and schema support\"},\"tool\":\"notes\"}",
            ),
            expected_result: String::from_str("Note added successfully for 2025-09-28"),
        },
    );
    examples.push(
        ToolExample {
            description: String::from_str("Read today's notes"),
            user_request: String::from_str("show me today's notes"),
            tool_call: String::from_str(
                "{\"action\":\"read\",\"parameters\":{},\"tool\":\"notes\"}",
            ),
            expected_result: String::from_str(
                "Notes for 2025-09-28:\n1. [20:45] Finished implementing AI tools",
            ),
        },
    );
    examples.push(
        ToolExample {
            description: String::from_str("Update a specific note"),
            user_request: String::from_str("update my first note from today"),
            tool_call: String::from_str(
                "{\"action\":\"update\",\"parameters\":{\"date\":\"2025-09-28\",\"index\":1,\"text\":\"Updated: Completed implementing AI tools with memory and enhanced schemas\"},\"tool\":\"notes\"}",
            ),
            expected_result: String::from_str("Note 1 updated successfully for 2025-09-28"),
        },
    );

    ToolSchema {
        name: String::from_str("notes"),
        description: String::from_str(
            "Manage daily notes with full CRUD operations. Notes are automatically organized by date and stored locally as JSON files.",
        ),
        category: ToolCategory::Internal,
        actions: actions,
        examples: examples,
    }
}

/// Builds the notes tool's compact action list.
pub fn build_notes_actions() -> (r: Vec<ToolAction>)
    ensures
        r@.len() == 4,
        r@[0].name@ == "create"@,
        r@[1].name@ == "read"@,
        r@[2].name@ == "update"@,
        r@[3].name@ == "delete"@,
{
    let mut actions: Vec<ToolAction> = Vec::new();
    actions.push(
        ToolAction::new("create", "Add a new note").with_parameter(
            "text",
            "The note content",
            true,
            "string",
        ).with_parameter("date", "Date in YYYY-MM-DD format (defaults to today)", false, "string"),
    );
    actions.push(
        ToolAction::new("read", "Read notes").with_parameter(
            "date",
            "Date in YYYY-MM-DD format (optional, shows recent notes if omitted)",
            false,
            "string",
        ).with_parameter("limit", "Maximum number of notes to show", false, "number"),
    );
    actions.push(
        ToolAction::new("update", "Update an existing note").with_parameter(
            "date",
            "Date in YYYY-MM-DD format",
            true,
            "string",
        ).with_parameter("index", "Note index (1-based)", true, "number").with_parameter(
            "text",
            "New note content",
            true,
            "string",
        ),
    );
    actions.push(
        ToolAction::new("delete", "Delete a note").with_parameter(
            "date",
            "Date in YYYY-MM-DD format",
            true,
            "string",
        ).with_parameter("index", "Note index (1-based)", true, "number"),
    );
    actions
}

/// Builds the notes tool's registration record.
pub fn build_notes_tool_info() -> (r: ToolInfo)
    ensures
        notes_info_like(r),
{
    ToolInfo {
        name: String::from_str("notes"),
        description: String::from_str("Manage daily notes with full CRUD operations"),
        category: ToolCategory::Internal,
        schema: build_notes_schema(),
        actions: build_notes_actions(),
    }
}

} // verus!
