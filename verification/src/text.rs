use vstd::prelude::*;

use crate::strings::{join_strings, join_with, split_on, split_string, free_of, lemma_split_join};

verus! {

/// A position in the buffer: line index, then column.
#[derive(Clone, Copy, Debug, PartialEq, Eq, PartialOrd, Ord, Structural)]
pub struct Cursor(pub usize, pub usize);

/// The text buffer of the editor and of the search and replace bars: its
/// lines, the cursor, whether the view should follow the cursor, and where a
/// selection started, if one is active.
#[derive(Clone, Debug, PartialEq)]
pub struct Text {
    pub lines: Vec<String>,
    pub cursor: Cursor,
    pub focus: bool,
    pub selection_start: Option<Cursor>,
    pub clipboard: String,
}

/// The abstract state of a buffer.
pub struct TextView {
    pub lines: Seq<Seq<char>>,
    pub cursor: Cursor,
    pub focus: bool,
    pub selection_start: Option<Cursor>,
    pub clipboard: Seq<char>,
}

impl TextView {
    /// At least one line, and the cursor and the selection's start on one
    /// of them.
    pub open spec fn wf(self) -> bool {
        &&& self.lines.len() >= 1
        &&& self.cursor.0 < self.lines.len()
        &&& self.selection_start matches Some(s) ==> s.0 < self.lines.len()
    }
}

impl View for Text {
    type V = TextView;

    open spec fn view(&self) -> TextView {
        TextView {
            lines: self.lines_view(),
            cursor: self.cursor,
            focus: self.focus,
            selection_start: self.selection_start,
            clipboard: self.clipboard@,
        }
    }
}

/// An empty buffer: one empty line, the cursor at its start, no selection.
pub open spec fn empty_text() -> TextView {
    TextView {
        lines: seq![Seq::<char>::empty()],
        cursor: Cursor(0, 0),
        focus: false,
        selection_start: None,
        clipboard: Seq::empty(),
    }
}

/// A buffer holding `s`: one line per newline-separated piece, the cursor
/// at its start, no selection.
pub open spec fn text_of(s: Seq<char>) -> TextView {
    TextView {
        lines: split_on(s, '\n'),
        cursor: Cursor(0, 0),
        focus: false,
        selection_start: None,
        clipboard: Seq::empty(),
    }
}

/// The lines of a buffer as character sequences.
pub open spec fn lines_model(lines: Seq<String>) -> Seq<Seq<char>> {
    lines.map_values(|l: String| l@)
}

impl Text {
    /// The buffer's lines as character sequences.
    pub open spec fn lines_view(&self) -> Seq<Seq<char>> {
        lines_model(self.lines@)
    }

    /// The whole buffer: its lines joined by newlines.
    pub open spec fn content(&self) -> Seq<char> {
        join_with(self.lines_view(), '\n')
    }

    /// A buffer that has at least one line and whose cursor and selection
    /// start stand on one.
    pub open spec fn wf(&self) -> bool {
        self@.wf()
    }

    /// An empty buffer: one empty line, the cursor at its start.
    pub fn new() -> (t: Text)
        ensures
            t@ == empty_text(),
            t.wf(),
    {
        let mut lines: Vec<String> = Vec::new();
        lines.push(String::new());
        let t = Text { lines, cursor: Cursor(0, 0), focus: false, selection_start: None, clipboard: String::new() };
        assert(t.lines_view() =~= seq![Seq::<char>::empty()]);
        t
    }

    /// A buffer holding `s`, one line per newline-separated piece, with the
    /// cursor at its start.
    pub fn from_string(s: String) -> (t: Text)
        ensures
            t@ == text_of(s@),
            t.wf(),
    {
        let lines = split_string(s.as_str(), '\n');
        proof {
            crate::strings::lemma_split_on_nonempty(s@, '\n');
        }
        let t = Text { lines, cursor: Cursor(0, 0), focus: false, selection_start: None, clipboard: String::new() };
        assert(t.lines_view() =~= split_on(s@, '\n'));
        t
    }

    /// The whole buffer as one string, lines separated by newlines.
    pub fn to_content(&self) -> (s: String)
        ensures
            s@ == self.content(),
    {
        join_strings(&self.lines, '\n')
    }

    /// A copy of this buffer.
    pub fn duplicate(&self) -> (t: Text)
        ensures
            t@ == self@,
            t.lines@ == self.lines@,
            t.cursor == self.cursor,
            t.focus == self.focus,
            t.selection_start == self.selection_start,
            t.clipboard@ == self.clipboard@,
    {
        let mut lines: Vec<String> = Vec::new();
        let mut i: usize = 0;
        while i < self.lines.len()
            invariant
                i <= self.lines.len(),
                lines@ == self.lines@.take(i as int),
            decreases self.lines.len() - i,
        {
            lines.push(self.lines[i].clone());
            i = i + 1;
            assert(lines@ =~= self.lines@.take(i as int));
        }
        assert(lines@ =~= self.lines@);
        Text {
            lines,
            cursor: self.cursor,
            focus: self.focus,
            selection_start: self.selection_start,
            clipboard: self.clipboard.clone(),
        }
    }
}

/// Whether two buffers hold the same lines.
pub fn same_lines(a: &Vec<String>, b: &Vec<String>) -> (r: bool)
    ensures
        r == (lines_model(a@) == lines_model(b@)),
{
    if a.len() != b.len() {
        proof {
            assert(lines_model(a@).len() != lines_model(b@).len());
        }
        return false;
    }
    let mut i: usize = 0;
    while i < a.len()
        invariant
            a.len() == b.len(),
            i <= a.len(),
            forall|k: int| 0 <= k < i ==> #[trigger] a@[k]@ == b@[k]@,
        decreases a.len() - i,
    {
        if a[i] != b[i] {
            proof {
                assert(lines_model(a@)[i as int] != lines_model(b@)[i as int]);
            }
            return false;
        }
        i = i + 1;
    }
    assert(lines_model(a@) =~= lines_model(b@));
    true
}

/// Loading the text that a buffer saves gives back the same lines, as long
/// as no line holds a newline of its own.
pub proof fn law_content_round_trip(t: Text)
    requires
        t.lines@.len() >= 1,
        forall|i: int| 0 <= i < t.lines@.len() ==> free_of(#[trigger] t.lines@[i]@, '\n'),
    ensures
        split_on(t.content(), '\n') == t.lines_view(),
{
    assert forall|i: int| 0 <= i < t.lines_view().len() implies free_of(
        #[trigger] t.lines_view()[i],
        '\n',
    ) by {
        assert(t.lines_view()[i] == t.lines@[i]@);
    }
    lemma_split_join(t.lines_view(), '\n');
}

} // verus!
