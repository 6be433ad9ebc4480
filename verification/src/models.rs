//! The note data model: a timestamped note and one day's ordered log of
//! notes, keyed by its calendar date in `YYYY-MM-DD` form.

use vstd::prelude::*;
use vstd::string::*;
use crate::shims::now_rfc3339;

verus! {

/// One note: its creation instant in RFC 3339 form, its text, and tags kept
/// for later use.
pub struct Note {
    pub when: String,
    pub text: String,
    pub tags: Vec<String>,
}

impl Note {
    /// A note stamped with the current instant.
    pub fn new(text: String) -> (r: Note)
        ensures
            r.text@ == text@,
            r.tags@.len() == 0,
    {
        Note { when: now_rfc3339(), text: text, tags: Vec::new() }
    }

    pub fn text(&self) -> (r: &str)
        ensures
            r@ == self.text@,
    {
        self.text.as_str()
    }
}

/// One day's notes, oldest first.
pub struct DayLog {
    pub date: String,
    pub notes: Vec<Note>,
}

impl DayLog {
    pub fn new(date: String) -> (r: DayLog)
        ensures
            r.date@ == date@,
            r.notes@.len() == 0,
    {
        DayLog { date: date, notes: Vec::new() }
    }

    pub fn add_note(&mut self, note: Note)
        ensures
            final(self).date == old(self).date,
            final(self).notes@ == old(self).notes@.push(note),
    {
        self.notes.push(note);
    }

    pub fn notes(&self) -> (r: &Vec<Note>)
        ensures
            r == &self.notes,
    {
        &self.notes
    }

    /// Replaces the note at `index`.
    pub fn set_note(&mut self, index: usize, note: Note)
        requires
            index < old(self).notes@.len(),
        ensures
            final(self).date == old(self).date,
            final(self).notes@ == old(self).notes@.update(index as int, note),
    {
        self.notes.set(index, note);
    }

    /// Removes and returns the note at `index`.
    pub fn remove_note(&mut self, index: usize) -> (r: Note)
        requires
            index < old(self).notes@.len(),
        ensures
            final(self).date == old(self).date,
            final(self).notes@ == old(self).notes@.remove(index as int),
            r == old(self).notes@[index as int],
    {
        self.notes.remove(index)
    }
}

} // verus!
