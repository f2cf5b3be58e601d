use vstd::prelude::*;

use crate::date::{Date, Timestamp};
use crate::strings::push_char;

verus! {

/// One day's note as stored: its row id, its text, the day it belongs to
/// and when it was last edited.
#[derive(Clone, Debug, PartialEq)]
pub struct Note {
    pub id: i32,
    pub text: String,
    pub creation_date: Date,
    pub last_edited: Timestamp,
}

/// The abstract content of a note.
pub struct NoteView {
    pub id: i32,
    pub text: Seq<char>,
    pub creation_date: Date,
    pub last_edited: Timestamp,
}

impl View for Note {
    type V = NoteView;

    open spec fn view(&self) -> NoteView {
        NoteView {
            id: self.id,
            text: self.text@,
            creation_date: self.creation_date,
            last_edited: self.last_edited,
        }
    }
}

/// The text of a note after capturing `addition` into it: the addition
/// alone when the note is empty, else on a line of its own after it.
pub open spec fn appended(existing: Seq<char>, addition: Seq<char>) -> Seq<char> {
    if existing.len() == 0 {
        addition
    } else {
        existing.push('\n') + addition
    }
}

/// The text of a note after capturing `addition` into it.
pub fn appended_text(existing: &str, addition: &str) -> (r: String)
    ensures
        r@ == appended(existing@, addition@),
{
    let mut r = String::new();
    if !existing.is_empty() {
        r.append(existing);
        push_char(&mut r, '\n');
    }
    r.append(addition);
    proof {
        if existing@.len() == 0 {
            assert(r@ =~= addition@);
        }
    }
    r
}

} // verus!
