use vstd::prelude::*;

use crate::action::Action;
use crate::date::{local_now, Date, Timestamp};
use crate::editor_state::{EditorState, EditorStateView};
use crate::key::{Key, KeyCode};
use crate::note::{Note, NoteView};
use crate::search::{replacement_result, Replace, ReplaceStage, Search};
use crate::strings::{
    chars_of, contains_chars, find_chars, first_occurrence, join_with, occurs_at_index, string_of,
};
use crate::edit::text_input;
use crate::text::{empty_text, text_of, Cursor, Text, TextView};
use crate::undo::{History, Snapshot, SnapshotView, UndoStack};

verus! {

/// The note editor: what it is doing, the buffer, the note's day and last
/// edit, the view's scroll position and size, whether the note has unsaved
/// changes, which panels are shown, and the undo history.
#[derive(Debug)]
pub struct Editor {
    pub state: EditorState,
    pub text: Text,
    pub creation_date: Date,
    pub last_edited: Timestamp,
    pub scroll_offset: (u16, u16),
    pub screen_size: (u16, u16),
    pub write: bool,
    pub side_panel: bool,
    pub show_help: bool,
    undo_stack: UndoStack,
}

/// The abstract state of the editor.
pub struct EditorView {
    pub state: EditorStateView,
    pub text: TextView,
    pub creation_date: Date,
    pub last_edited: Timestamp,
    pub scroll_offset: (u16, u16),
    pub screen_size: (u16, u16),
    pub write: bool,
    pub side_panel: bool,
    pub show_help: bool,
    pub history: History,
}

impl View for Editor {
    type V = EditorView;

    closed spec fn view(&self) -> EditorView {
        EditorView {
            state: self.state@,
            text: self.text@,
            creation_date: self.creation_date,
            last_edited: self.last_edited,
            scroll_offset: self.scroll_offset,
            screen_size: self.screen_size,
            write: self.write,
            side_panel: self.side_panel,
            show_help: self.show_help,
            history: self.undo_stack@,
        }
    }
}

/// The snapshot that records the buffer `t`.
pub open spec fn snapshot_of(t: TextView) -> SnapshotView {
    SnapshotView { text: t, cursor: t.cursor }
}

/// Every snapshot of the history holds a well-formed buffer.
pub open spec fn history_wf(h: History) -> bool {
    &&& h.bounded()
    &&& forall|i: int| 0 <= i < h.undos.len() ==> (#[trigger] h.undos[i]).text.wf()
    &&& forall|i: int| 0 <= i < h.redos.len() ==> (#[trigger] h.redos[i]).text.wf()
}

impl EditorView {
    /// The buffer and the bar being typed, if any, are well formed, and so
    /// is every buffer that undo or redo may bring back.
    pub open spec fn wf(self) -> bool {
        &&& self.text.wf()
        &&& history_wf(self.history)
        &&& (self.state matches EditorStateView::Search(t) ==> t.wf())
        &&& (self.state matches EditorStateView::Replace(t, _) ==> t.wf())
    }
}

/// An open task box, `- [ ]`.
pub open spec fn open_box() -> Seq<char> {
    seq!['-', ' ', '[', ' ', ']']
}

/// A task box ticked with `mark`.
pub open spec fn ticked_box(mark: char) -> Seq<char> {
    seq!['-', ' ', '[', mark, ']']
}

/// `s` with the five characters at `i` replaced by `b`.
pub open spec fn with_box_at(s: Seq<char>, i: int, b: Seq<char>) -> Seq<char> {
    s.take(i) + b + s.skip(i + 5)
}

/// The line with its first open task box ticked, or, when it has none, its
/// first box ticked with `x` opened, or else its first box ticked with `X`
/// opened; unchanged when it has no box.
pub open spec fn toggled_line(s: Seq<char>) -> Seq<char> {
    match first_occurrence(s, open_box()) {
        Some(i) => with_box_at(s, i, ticked_box('x')),
        None => match first_occurrence(s, ticked_box('x')) {
            Some(i) => with_box_at(s, i, open_box()),
            None => match first_occurrence(s, ticked_box('X')) {
                Some(i) => with_box_at(s, i, open_box()),
                None => s,
            },
        },
    }
}

/// A mark that a task box may hold.
pub open spec fn box_mark(c: char) -> bool {
    c == ' ' || c == 'x' || c == 'X'
}

/// The only task boxes of `s`, of any kind, start at `i`.
pub open spec fn boxes_only_at(s: Seq<char>, i: int) -> bool {
    forall|j: int, c: char| box_mark(c) && #[trigger] occurs_at_index(s, ticked_box(c), j) ==> j == i
}

proof fn lemma_boxes_do_not_overlap(x: Seq<char>, i: int, c: char, j: int, c2: char)
    requires
        box_mark(c),
        box_mark(c2),
        occurs_at_index(x, ticked_box(c), i),
        occurs_at_index(x, ticked_box(c2), j),
        j != i,
    ensures
        j + 5 <= i || j >= i + 5,
{
    if i - 5 < j < i {
        assert(x[i] == x.subrange(i, i + 5)[0]);
        assert(x[i] == x.subrange(j, j + 5)[i - j]);
        assert(ticked_box(c2)[i - j] != '-');
    }
    if i < j < i + 5 {
        assert(x[j] == x.subrange(j, j + 5)[0]);
        assert(x[j] == x.subrange(i, i + 5)[j - i]);
        assert(ticked_box(c)[j - i] != '-');
    }
}

proof fn lemma_far_occurrences_kept(s: Seq<char>, i: int, c: char, c2: char, j: int)
    requires
        0 <= i,
        i + 5 <= s.len(),
        j + 5 <= i || j >= i + 5,
    ensures
        occurs_at_index(s, ticked_box(c2), j) == occurs_at_index(with_box_at(s, i, ticked_box(c)), ticked_box(c2), j),
{
    let t = with_box_at(s, i, ticked_box(c));
    assert(t.len() == s.len());
    if 0 <= j && j + 5 <= s.len() {
        assert forall|k: int| j <= k < j + 5 implies t[k] == s[k] by {
            if k < i {
                assert(t[k] == s.take(i)[k]);
            } else {
                assert(t[k] == s.skip(i + 5)[k - i - 5]);
            }
        }
        assert(t.subrange(j, j + 5) =~= s.subrange(j, j + 5));
    }
}

proof fn lemma_rebox(s: Seq<char>, i: int, c: char)
    requires
        box_mark(c),
        0 <= i,
        i + 5 <= s.len(),
        boxes_only_at(s, i),
        exists|c0: char| box_mark(c0) && occurs_at_index(s, ticked_box(c0), i),
    ensures
        boxes_only_at(with_box_at(s, i, ticked_box(c)), i),
        occurs_at_index(with_box_at(s, i, ticked_box(c)), ticked_box(c), i),
{
    let c0 = choose|c0: char| box_mark(c0) && occurs_at_index(s, ticked_box(c0), i);
    let t = with_box_at(s, i, ticked_box(c));
    assert(t.subrange(i, i + 5) =~= ticked_box(c));
    assert forall|j: int, c2: char| box_mark(c2) && #[trigger] occurs_at_index(t, ticked_box(c2), j) implies j == i by {
        if j != i {
            lemma_boxes_do_not_overlap(t, i, c, j, c2);
            lemma_far_occurrences_kept(s, i, c, c2, j);
        }
    }
}

proof fn lemma_sole_box(s: Seq<char>, i: int, c: char)
    requires
        box_mark(c),
        boxes_only_at(s, i),
        occurs_at_index(s, ticked_box(c), i),
    ensures
        first_occurrence(s, ticked_box(c)) == Some(i),
        forall|c2: char| box_mark(c2) && c2 != c ==> first_occurrence(s, #[trigger] ticked_box(c2)) is None,
{
    crate::strings::lemma_first_occurrence_unique(s, ticked_box(c), i);
    assert forall|c2: char| box_mark(c2) && c2 != c implies first_occurrence(s, #[trigger] ticked_box(c2)) is None by {
        assert forall|j: int| !occurs_at_index(s, ticked_box(c2), j) by {
            if occurs_at_index(s, ticked_box(c2), j) {
                assert(j == i);
                assert(s.subrange(i, i + 5)[3] == c2);
            }
        }
    }
}

/// Toggling the task box of a line twice gives the line back, when the line
/// holds a single task box, open or ticked with `x`.
pub proof fn law_toggle_twice(s: Seq<char>, i: int)
    requires
        boxes_only_at(s, i),
        occurs_at_index(s, open_box(), i) || occurs_at_index(s, ticked_box('x'), i),
    ensures
        toggled_line(toggled_line(s)) == s,
{
    assert(open_box() == ticked_box(' '));
    if occurs_at_index(s, open_box(), i) {
        lemma_sole_box(s, i, ' ');
        let t = with_box_at(s, i, ticked_box('x'));
        assert(toggled_line(s) == t);
        assert(box_mark(' ') && occurs_at_index(s, ticked_box(' '), i));
        lemma_rebox(s, i, 'x');
        lemma_sole_box(t, i, 'x');
        assert(first_occurrence(t, ticked_box(' ')) is None);
        assert(toggled_line(t) == with_box_at(t, i, open_box()));
        assert(with_box_at(t, i, open_box()) =~= s);
    } else {
        lemma_sole_box(s, i, 'x');
        assert(first_occurrence(s, ticked_box(' ')) is None);
        let t = with_box_at(s, i, open_box());
        assert(toggled_line(s) == t);
        assert(box_mark('x') && occurs_at_index(s, ticked_box('x'), i));
        lemma_rebox(s, i, ' ');
        lemma_sole_box(t, i, ' ');
        assert(toggled_line(t) == with_box_at(t, i, ticked_box('x')));
        assert(with_box_at(t, i, ticked_box('x')) =~= s);
    }
}

/// How many lines a page key moves: the view's height less two.
pub open spec fn page_height(v: EditorView) -> int {
    if v.screen_size.0 >= 2 { v.screen_size.0 - 2 } else { 0 }
}

/// The first line shown in a view `height` lines high that starts at line
/// `top`, once it has moved just enough to show line `row`.
pub open spec fn scroll_following(top: u16, height: u16, row: usize) -> u16 {
    if row < top {
        row as u16
    } else if height > 0 && row >= top + height {
        if row - height + 1 <= u16::MAX { (row - height + 1) as u16 } else { u16::MAX }
    } else {
        top
    }
}

/// A key that goes to the buffer: the buffer is recorded for undo, the key
/// is applied to it, the note is marked as changed and the view follows the
/// cursor.
pub open spec fn typed(v: EditorView, key: Key) -> (EditorView, Action) {
    let t = text_input(v.text, key);
    (
        EditorView {
            history: v.history.pushed(snapshot_of(v.text)),
            text: t,
            write: true,
            scroll_offset: (scroll_following(v.scroll_offset.0, v.screen_size.0, t.cursor.0), v.scroll_offset.1),
            ..v
        },
        Action::Noop,
    )
}

/// The buffer with its cursor moved to `c` and followed by the view.
pub open spec fn cursor_moved(v: EditorView, c: Cursor) -> (EditorView, Action) {
    (EditorView { text: TextView { cursor: c, focus: true, ..v.text }, ..v }, Action::Noop)
}

/// The editor after undo (`redo` false) or redo (`redo` true).
pub open spec fn history_moved(v: EditorView, redo: bool) -> (EditorView, Action) {
    let (h, r) = if redo {
        v.history.redone(snapshot_of(v.text))
    } else {
        v.history.undone(snapshot_of(v.text))
    };
    match r {
        Some(s) => (
            EditorView { text: TextView { focus: true, ..s.text }, write: true, history: h, ..v },
            Action::Noop,
        ),
        None => (EditorView { history: h, ..v }, Action::Noop),
    }
}

/// The editor after a key press while editing the note.
pub open spec fn edit_step(v: EditorView, key: Key) -> (EditorView, Action) {
    let row = v.text.cursor.0;
    let col = v.text.cursor.1;
    if key.ctrl {
        match key.code {
            KeyCode::Char('q') => (EditorView { state: EditorStateView::Exit, ..v }, Action::BackToTitle),
            KeyCode::Char('f') => (EditorView { state: EditorStateView::Search(empty_text()), ..v }, Action::Noop),
            KeyCode::Char('r') => (
                EditorView {
                    state: EditorStateView::Replace(text_of(seq!['/']), ReplaceStage::Search),
                    ..v
                },
                Action::Noop,
            ),
            KeyCode::Up => (
                EditorView {
                    scroll_offset: (if v.scroll_offset.0 > 0 { (v.scroll_offset.0 - 1) as u16 } else { 0 }, v.scroll_offset.1),
                    ..v
                },
                Action::Noop,
            ),
            KeyCode::Down => (
                EditorView {
                    scroll_offset: (
                        if v.scroll_offset.0 < u16::MAX { (v.scroll_offset.0 + 1) as u16 } else { u16::MAX },
                        v.scroll_offset.1,
                    ),
                    ..v
                },
                Action::Noop,
            ),
            KeyCode::Char('z') => history_moved(v, false),
            KeyCode::Char('y') => history_moved(v, true),
            KeyCode::Char('t') => (
                EditorView {
                    text: TextView {
                        lines: v.text.lines.update(row as int, toggled_line(v.text.lines[row as int])),
                        focus: true,
                        ..v.text
                    },
                    write: true,
                    ..v
                },
                Action::Noop,
            ),
            KeyCode::Char('?') => (EditorView { show_help: !v.show_help, ..v }, Action::Noop),
            _ => typed(v, key),
        }
    } else {
        match key.code {
            KeyCode::Esc => (EditorView { state: EditorStateView::Exit, ..v }, Action::BackToTitle),
            KeyCode::Home => cursor_moved(v, Cursor(row, 0)),
            KeyCode::End => cursor_moved(
                v,
                Cursor(row, vstd::utf8::encode_utf8(v.text.lines[row as int]).len() as usize),
            ),
            KeyCode::PageUp => cursor_moved(
                v,
                Cursor(if row >= page_height(v) { (row - page_height(v)) as usize } else { 0 }, col),
            ),
            KeyCode::PageDown => cursor_moved(
                v,
                Cursor(
                    if row + page_height(v) <= v.text.lines.len() - 1 {
                        (row + page_height(v)) as usize
                    } else {
                        (v.text.lines.len() - 1) as usize
                    },
                    col,
                ),
            ),
            _ => typed(v, key),
        }
    }
}

/// The editor after a key press in the search bar.
pub open spec fn search_step(v: EditorView, key: Key) -> (EditorView, Action) {
    match key.code {
        KeyCode::Esc | KeyCode::Enter => (EditorView { state: EditorStateView::Edit, ..v }, Action::Noop),
        _ => match v.state {
            EditorStateView::Search(t) => (
                EditorView { state: EditorStateView::Search(text_input(t, key)), ..v },
                Action::Noop,
            ),
            _ => (v, Action::Noop),
        },
    }
}

/// The editor after a key press in the replace bar holding `t`: Enter
/// replaces the buffer by what the bar's replacement gives, when it gives
/// anything.
pub open spec fn replace_step(v: EditorView, t: TextView, key: Key) -> (EditorView, Action) {
    match key.code {
        KeyCode::Esc => (EditorView { state: EditorStateView::Edit, ..v }, Action::Noop),
        KeyCode::Enter => match replacement_result(t) {
            Some(c) => (
                EditorView { state: EditorStateView::Edit, text: text_of(c), write: true, ..v },
                Action::Noop,
            ),
            None => (EditorView { state: EditorStateView::Edit, ..v }, Action::Noop),
        },
        _ => match v.state {
            EditorStateView::Replace(_, stage) => (
                EditorView { state: EditorStateView::Replace(text_input(t, key), stage), ..v },
                Action::Noop,
            ),
            _ => (v, Action::Noop),
        },
    }
}

/// The editor after a key press, and the action it asks for.
pub open spec fn editor_step(v: EditorView, key: Key) -> (EditorView, Action) {
    if key.ctrl && key.code == KeyCode::Char('w') {
        (EditorView { write: true, ..v }, Action::Noop)
    } else if key.ctrl && key.code == KeyCode::Char('j') {
        (EditorView { side_panel: !v.side_panel, ..v }, Action::Noop)
    } else {
        match v.state {
            EditorStateView::Edit => edit_step(v, key),
            EditorStateView::Search(_) => search_step(v, key),
            EditorStateView::Replace(t, _) => replace_step(v, t, key),
            EditorStateView::Exit => (v, Action::BackToTitle),
        }
    }
}

/// The five characters of a task box ticked with `mark`.
fn task_box(mark: char) -> (v: Vec<char>)
    ensures
        v@ == ticked_box(mark),
{
    let mut v: Vec<char> = Vec::new();
    v.push('-');
    v.push(' ');
    v.push('[');
    v.push(mark);
    v.push(']');
    assert(v@ =~= ticked_box(mark));
    v
}

/// `cs` with the characters at `i` replaced by those of `b`.
fn splice_box(cs: &Vec<char>, i: usize, b: &Vec<char>) -> (r: Vec<char>)
    requires
        b.len() == 5,
        i + 5 <= cs.len(),
    ensures
        r@ == with_box_at(cs@, i as int, b@),
{
    let mut r: Vec<char> = Vec::new();
    let mut k: usize = 0;
    while k < i
        invariant
            k <= i,
            i + 5 <= cs.len(),
            r@ == cs@.take(k as int),
        decreases i - k,
    {
        r.push(cs[k]);
        k = k + 1;
        assert(r@ =~= cs@.take(k as int));
    }
    let mut k: usize = 0;
    while k < 5
        invariant
            k <= 5,
            b.len() == 5,
            i + 5 <= cs.len(),
            r@ == cs@.take(i as int) + b@.take(k as int),
        decreases 5 - k,
    {
        r.push(b[k]);
        k = k + 1;
        assert(r@ =~= cs@.take(i as int) + b@.take(k as int));
    }
    let mut k: usize = i + 5;
    while k < cs.len()
        invariant
            i + 5 <= k <= cs.len(),
            b.len() == 5,
            r@ == cs@.take(i as int) + b@ + cs@.subrange(i + 5, k as int),
        decreases cs.len() - k,
    {
        r.push(cs[k]);
        k = k + 1;
        assert(r@ =~= cs@.take(i as int) + b@ + cs@.subrange(i + 5, k as int));
    }
    assert(b@.take(5) =~= b@);
    assert(cs@.subrange(i + 5, cs@.len() as int) =~= cs@.skip(i + 5));
    r
}

/// `line` with its task box toggled.
pub fn toggle_task_line(line: &str) -> (r: String)
    ensures
        r@ == toggled_line(line@),
{
    let cs = chars_of(line);
    let open = task_box(' ');
    let done = task_box('x');
    let done_upper = task_box('X');
    match find_chars(&cs, &open) {
        Some(i) => string_of(&splice_box(&cs, i, &done)),
        None => match find_chars(&cs, &done) {
            Some(i) => string_of(&splice_box(&cs, i, &open)),
            None => match find_chars(&cs, &done_upper) {
                Some(i) => string_of(&splice_box(&cs, i, &open)),
                None => string_of(&cs),
            },
        },
    }
}

/// How many of `lines` satisfy `has`.
pub open spec fn count_lines(lines: Seq<Seq<char>>, has: spec_fn(Seq<char>) -> bool) -> nat
    decreases lines.len(),
{
    if lines.len() == 0 {
        0
    } else {
        count_lines(lines.drop_last(), has) + if has(lines.last()) { 1nat } else { 0nat }
    }
}

/// The line holds a task box, open or ticked.
pub open spec fn has_task(l: Seq<char>) -> bool {
    first_occurrence(l, open_box()) is Some || has_done_task(l)
}

/// The line holds a ticked task box.
pub open spec fn has_done_task(l: Seq<char>) -> bool {
    first_occurrence(l, ticked_box('x')) is Some || first_occurrence(l, ticked_box('X')) is Some
}

proof fn lemma_count_lines_bounded(lines: Seq<Seq<char>>, has: spec_fn(Seq<char>) -> bool)
    ensures
        count_lines(lines, has) <= lines.len(),
    decreases lines.len(),
{
    if lines.len() > 0 {
        lemma_count_lines_bounded(lines.drop_last(), has);
    }
}

proof fn lemma_count_lines_same(lines: Seq<Seq<char>>, f: spec_fn(Seq<char>) -> bool, g: spec_fn(Seq<char>) -> bool)
    requires
        forall|i: int| 0 <= i < lines.len() ==> f(#[trigger] lines[i]) == g(lines[i]),
    ensures
        count_lines(lines, f) == count_lines(lines, g),
    decreases lines.len(),
{
    if lines.len() > 0 {
        let init = lines.drop_last();
        assert forall|i: int| 0 <= i < init.len() implies f(#[trigger] init[i]) == g(init[i]) by {
            assert(init[i] == lines[i]);
        }
        lemma_count_lines_same(init, f, g);
        assert(lines.last() == lines[lines.len() - 1]);
    }
}

/// A line counts as a task when an open or ticked box (`- [ ]`, `- [x]` or
/// `- [X]`) occurs anywhere in it, and as done when a ticked one does;
/// so the counts over a list of lines are the counts of such lines.
pub proof fn law_task_lines_anywhere(lines: Seq<Seq<char>>)
    ensures
        forall|l: Seq<char>| #[trigger] has_task(l) == ((exists|j: int| occurs_at_index(l, ticked_box(' '), j))
            || (exists|j: int| occurs_at_index(l, ticked_box('x'), j)) || (exists|j: int| occurs_at_index(l, ticked_box('X'), j))),
        forall|l: Seq<char>| #[trigger] has_done_task(l) == ((exists|j: int| occurs_at_index(l, ticked_box('x'), j))
            || (exists|j: int| occurs_at_index(l, ticked_box('X'), j))),
        count_lines(lines, |l: Seq<char>| has_task(l)) == count_lines(
            lines,
            |l: Seq<char>| (exists|j: int| occurs_at_index(l, ticked_box(' '), j)) || (exists|j: int|
                occurs_at_index(l, ticked_box('x'), j)) || (exists|j: int| occurs_at_index(l, ticked_box('X'), j)),
        ),
        count_lines(lines, |l: Seq<char>| has_done_task(l)) == count_lines(
            lines,
            |l: Seq<char>| (exists|j: int| occurs_at_index(l, ticked_box('x'), j)) || (exists|j: int|
                occurs_at_index(l, ticked_box('X'), j)),
        ),
{
    assert(open_box() == ticked_box(' '));
    lemma_count_lines_same(
        lines,
        |l: Seq<char>| has_task(l),
        |l: Seq<char>| (exists|j: int| occurs_at_index(l, ticked_box(' '), j)) || (exists|j: int|
            occurs_at_index(l, ticked_box('x'), j)) || (exists|j: int| occurs_at_index(l, ticked_box('X'), j)),
    );
    lemma_count_lines_same(
        lines,
        |l: Seq<char>| has_done_task(l),
        |l: Seq<char>| (exists|j: int| occurs_at_index(l, ticked_box('x'), j)) || (exists|j: int|
                occurs_at_index(l, ticked_box('X'), j)),
    );
}

/// How many lines hold a task box, and how many a ticked one.
pub fn task_counts(lines: &Vec<String>) -> (r: (usize, usize))
    ensures
        r.0 == count_lines(lines@.map_values(|l: String| l@), |l: Seq<char>| has_task(l)),
        r.1 == count_lines(lines@.map_values(|l: String| l@), |l: Seq<char>| has_done_task(l)),
        r.0 == count_lines(
            lines@.map_values(|l: String| l@),
            |l: Seq<char>| (exists|j: int| occurs_at_index(l, ticked_box(' '), j)) || (exists|j: int|
                occurs_at_index(l, ticked_box('x'), j)) || (exists|j: int| occurs_at_index(l, ticked_box('X'), j)),
        ),
        r.1 == count_lines(
            lines@.map_values(|l: String| l@),
            |l: Seq<char>| (exists|j: int| occurs_at_index(l, ticked_box('x'), j)) || (exists|j: int|
                occurs_at_index(l, ticked_box('X'), j)),
        ),
{
    proof {
        law_task_lines_anywhere(lines@.map_values(|l: String| l@));
    }
    let ghost views = lines@.map_values(|l: String| l@);
    let ghost all = |l: Seq<char>| has_task(l);
    let ghost done_f = |l: Seq<char>| has_done_task(l);
    let open = task_box(' ');
    let done = task_box('x');
    let done_upper = task_box('X');
    let mut total: usize = 0;
    let mut ticked: usize = 0;
    let mut i: usize = 0;
    while i < lines.len()
        invariant
            i <= lines.len(),
            views == lines@.map_values(|l: String| l@),
            open@ == open_box(),
            done@ == ticked_box('x'),
            done_upper@ == ticked_box('X'),
            all == (|l: Seq<char>| has_task(l)),
            done_f == (|l: Seq<char>| has_done_task(l)),
            total == count_lines(views.take(i as int), all),
            ticked == count_lines(views.take(i as int), done_f),
        decreases lines.len() - i,
    {
        proof {
            assert(views.take(i + 1).drop_last() =~= views.take(i as int));
            lemma_count_lines_bounded(views.take(i as int), all);
            lemma_count_lines_bounded(views.take(i as int), done_f);
        }
        let cs = chars_of(lines[i].as_str());
        let is_done = contains_chars(&cs, &done) || contains_chars(&cs, &done_upper);
        let is_task = contains_chars(&cs, &open) || is_done;
        if is_task {
            total = total + 1;
        }
        if is_done {
            ticked = ticked + 1;
        }
        i = i + 1;
    }
    assert(views.take(lines.len() as int) =~= views);
    (total, ticked)
}

proof fn lemma_history_wf_kept(h: History, current: SnapshotView, s: SnapshotView)
    requires
        history_wf(h),
        current.text.wf(),
        s.text.wf(),
    ensures
        history_wf(h.pushed(s)),
        history_wf(h.undone(current).0),
        history_wf(h.redone(current).0),
        h.undone(current).1 matches Some(u) ==> u.text.wf(),
        h.redone(current).1 matches Some(u) ==> u.text.wf(),
{
    let u = h.undos.push(s);
    assert forall|i: int| 0 <= i < u.len() implies (#[trigger] u[i]).text.wf() by {
        if i < h.undos.len() {
            assert(u[i] == h.undos[i]);
        }
    }
    if u.len() > crate::undo::history_limit() {
        let d = u.drop_first();
        assert forall|i: int| 0 <= i < d.len() implies (#[trigger] d[i]).text.wf() by {
            assert(d[i] == u[i + 1]);
        }
    }
    if h.undos.len() > 0 {
        assert(h.undos.last() == h.undos[h.undos.len() - 1]);
        let r = h.redos.push(current);
        assert forall|i: int| 0 <= i < r.len() implies (#[trigger] r[i]).text.wf() by {
            if i < h.redos.len() {
                assert(r[i] == h.redos[i]);
            }
        }
        let d = h.undos.drop_last();
        assert forall|i: int| 0 <= i < d.len() implies (#[trigger] d[i]).text.wf() by {
            assert(d[i] == h.undos[i]);
        }
    }
    if h.redos.len() > 0 {
        assert(h.redos.last() == h.redos[h.redos.len() - 1]);
        let r = h.undos.push(current);
        assert forall|i: int| 0 <= i < r.len() implies (#[trigger] r[i]).text.wf() by {
            if i < h.undos.len() {
                assert(r[i] == h.undos[i]);
            }
        }
        let d = h.redos.drop_last();
        assert forall|i: int| 0 <= i < d.len() implies (#[trigger] d[i]).text.wf() by {
            assert(d[i] == h.redos[i]);
        }
    }
}

/// Control and `?` twice while editing leaves the editor as it was, and so
/// does Control and `j` twice in any state.
pub proof fn law_editor_toggles(v: EditorView, shift: bool)
    ensures
        v.state == EditorStateView::Edit ==> ({
            let k = Key { code: KeyCode::Char('?'), ctrl: true, shift };
            editor_step(editor_step(v, k).0, k) == (v, Action::Noop)
        }),
        ({
            let k = Key { code: KeyCode::Char('j'), ctrl: true, shift };
            editor_step(editor_step(v, k).0, k) == (v, Action::Noop)
        }),
{
}

/// While editing, Home goes to the start of the cursor's line and End to
/// its end (counted in bytes of UTF-8); Page Up and Page Down go up or down
/// by the view's height less two lines, stopping at the first and the last
/// line and keeping the column. Each makes the view follow the cursor and
/// changes nothing else.
pub proof fn law_editor_navigation(v: EditorView, key: Key)
    requires
        v.state == EditorStateView::Edit,
        v.text.wf(),
        v.text.lines.len() <= usize::MAX,
        vstd::utf8::encode_utf8(v.text.lines[v.text.cursor.0 as int]).len() <= usize::MAX,
        !key.ctrl,
        key.code is Home || key.code is End || key.code is PageUp || key.code is PageDown,
    ensures
        ({
            let (w, a) = editor_step(v, key);
            let row = v.text.cursor.0 as int;
            let col = v.text.cursor.1;
            let page = if v.screen_size.0 >= 2 { v.screen_size.0 - 2 } else { 0 };
            let last = v.text.lines.len() - 1;
            let to = w.text.cursor;
            &&& a == Action::Noop
            &&& w == (EditorView { text: TextView { cursor: to, focus: true, ..v.text }, ..v })
            &&& key.code is Home ==> to == Cursor(row as usize, 0)
            &&& key.code is End ==> to.0 == row && to.1 == vstd::utf8::encode_utf8(v.text.lines[row]).len()
            &&& key.code is PageUp ==> to.1 == col && to.0 == if row >= page { row - page } else { 0 }
            &&& key.code is PageDown ==> to.1 == col && to.0 == if row + page <= last { row + page } else { last }
        }),
{
}

/// In the search bar, Esc and Enter go back to editing and any other key
/// goes to the bar's own text. In the replace bar, Esc goes back to
/// editing, Enter replaces the note's text by what the bar's replacement
/// gives (marking the note changed) when it gives anything and goes back
/// to editing, and any other key goes to the bar's text. Nothing else
/// changes, apart from Control and `w` or `j`, which act as everywhere.
pub proof fn law_bars(v: EditorView, key: Key)
    requires
        !(key.ctrl && (key.code == KeyCode::Char('w') || key.code == KeyCode::Char('j'))),
    ensures
        ({
            let (w, a) = editor_step(v, key);
            &&& (v.state is Search || v.state is Replace) ==> a == Action::Noop
            &&& v.state matches EditorStateView::Search(t) ==> if key.code is Esc || key.code is Enter {
                w == EditorView { state: EditorStateView::Edit, ..v }
            } else {
                w == EditorView { state: EditorStateView::Search(text_input(t, key)), ..v }
            }
            &&& v.state matches EditorStateView::Replace(t, stage) ==> if key.code is Esc {
                w == EditorView { state: EditorStateView::Edit, ..v }
            } else if key.code is Enter {
                w == match replacement_result(t) {
                    Some(c) => EditorView { state: EditorStateView::Edit, text: text_of(c), write: true, ..v },
                    None => EditorView { state: EditorStateView::Edit, ..v },
                }
            } else {
                w == EditorView { state: EditorStateView::Replace(text_input(t, key), stage), ..v }
            }
        }),
{
}

/// Opening a note and saving it untouched writes back exactly its text.
pub proof fn law_open_then_save_keeps_text(note_text: Seq<char>)
    ensures
        join_with(text_of(note_text).lines, '\n') == note_text,
{
    crate::strings::lemma_join_split(note_text, '\n');
}

/// Undo followed by redo, while editing, brings back the buffer's lines and
/// cursor as they were before the undo.
pub proof fn law_undo_then_redo_restores_text(v: EditorView, undo: Key, redo: Key)
    requires
        v.state == EditorStateView::Edit,
        v.history.undos.len() > 0,
        undo == (Key { code: KeyCode::Char('z'), ctrl: true, shift: undo.shift }),
        redo == (Key { code: KeyCode::Char('y'), ctrl: true, shift: redo.shift }),
    ensures
        ({
            let v1 = editor_step(v, undo).0;
            let v2 = editor_step(v1, redo).0;
            &&& v2.text.lines == v.text.lines
            &&& v2.text.cursor == v.text.cursor
            &&& v2.history.redos == v.history.redos
            &&& v2.history.undos.len() == v.history.undos.len()
        }),
{
    let v1 = editor_step(v, undo).0;
    assert(v1.history.redos.last() == snapshot_of(v.text));
    assert(v1.history.redos.drop_last() =~= v.history.redos);
}

/// While editing, a key that goes to the buffer (a character, Enter,
/// Backspace, Delete or an arrow, with or without Shift) is undone by a
/// following Control and `z`: the buffer's lines come back as they were.
pub proof fn law_undo_reverts_typing(v: EditorView, key: Key, undo: Key)
    requires
        v.state == EditorStateView::Edit,
        !key.ctrl,
        !(key.code is Esc || key.code is Home || key.code is End || key.code is PageUp || key.code is PageDown),
        undo == (Key { code: KeyCode::Char('z'), ctrl: true, shift: undo.shift }),
    ensures
        ({
            let v1 = editor_step(v, key);
            let v2 = editor_step(v1.0, undo);
            &&& v1.0.text == text_input(v.text, key)
            &&& v1.0.write
            &&& v2.0.text.lines == v.text.lines
            &&& v2.0.state == EditorStateView::Edit
            &&& v2.0.write
            &&& v2.1 == Action::Noop
        }),
{
    let v1 = editor_step(v, key).0;
    assert(v1 == typed(v, key).0);
    assert(v1.history.undos.len() > 0);
    assert(v1.history.undos.last().text.lines == v.text.lines);
}

impl Editor {
    /// The editor's state is well formed and its history within bounds.
    pub closed spec fn wf(&self) -> bool {
        &&& self@.wf()
        &&& self.undo_stack.wf()
    }

    /// An editor on `text` for the day `creation_date`, editing, with the
    /// side panel shown and no history.
    fn on_text(text: Text, creation_date: Date, last_edited: Timestamp) -> (e: Editor)
        requires
            text.wf(),
        ensures
            e.wf(),
            e@ == (EditorView {
                state: EditorStateView::Edit,
                text: text@,
                creation_date,
                last_edited,
                scroll_offset: (0, 0),
                screen_size: (0, 0),
                write: false,
                side_panel: true,
                show_help: false,
                history: History { undos: Seq::empty(), redos: Seq::empty() },
            }),
    {
        let undo_stack = UndoStack::new();
        Editor {
            state: EditorState::Edit,
            text,
            creation_date,
            last_edited,
            scroll_offset: (0, 0),
            screen_size: (0, 0),
            write: false,
            side_panel: true,
            show_help: false,
            undo_stack,
        }
    }

    /// An empty editor for today.
    pub fn new() -> (e: Editor)
        ensures
            e.wf(),
            e@.creation_date.wf(),
            e@ == (EditorView {
                state: EditorStateView::Edit,
                text: empty_text(),
                creation_date: e@.creation_date,
                last_edited: e@.last_edited,
                scroll_offset: (0, 0),
                screen_size: (0, 0),
                write: false,
                side_panel: true,
                show_help: false,
                history: History { undos: Seq::empty(), redos: Seq::empty() },
            }),
    {
        let (date, now) = local_now();
        Editor::on_text(Text::new(), date, now)
    }

    /// An editor on the text of `note`.
    pub fn from_note(note: Note) -> (e: Editor)
        ensures
            e.wf(),
            e@ == (EditorView {
                state: EditorStateView::Edit,
                text: text_of(note.text@),
                creation_date: note.creation_date,
                last_edited: note.last_edited,
                scroll_offset: (0, 0),
                screen_size: (0, 0),
                write: false,
                side_panel: true,
                show_help: false,
                history: History { undos: Seq::empty(), redos: Seq::empty() },
            }),
    {
        let text = Text::from_string(note.text);
        Editor::on_text(text, note.creation_date, note.last_edited)
    }

    /// The note's text: the buffer's lines joined by newlines.
    pub fn current_note_text(&self) -> (s: String)
        ensures
            s@ == join_with(self@.text.lines, '\n'),
    {
        self.text.to_content()
    }

    /// Whether the note has unsaved changes.
    pub fn has_changes(&self) -> (b: bool)
        ensures
            b == self@.write,
    {
        self.write
    }

    /// Marks the note as having, or not having, unsaved changes.
    pub fn set_write(&mut self, write: bool)
        requires
            old(self).wf(),
        ensures
            final(self).wf(),
            final(self)@ == (EditorView { write, ..old(self)@ }),
    {
        self.write = write;
    }

    /// Records the size of the view: its height, then its width.
    pub fn set_screen_size(&mut self, height: u16, width: u16)
        requires
            old(self).wf(),
        ensures
            final(self).wf(),
            final(self)@ == (EditorView { screen_size: (height, width), ..old(self)@ }),
    {
        self.screen_size = (height, width);
    }

    /// Shows or hides the side panel.
    pub fn set_side_panel(&mut self, on: bool)
        requires
            old(self).wf(),
        ensures
            final(self).wf(),
            final(self)@ == (EditorView { side_panel: on, ..old(self)@ }),
    {
        self.side_panel = on;
    }

    /// Whether the side panel is shown.
    pub fn side_panel_shown(&self) -> (b: bool)
        ensures
            b == self@.side_panel,
    {
        self.side_panel
    }

    /// The note this editor holds, as saving it at the moment `now` stores
    /// it: a new row for the editor's day with the buffer's text.
    pub fn note_at(&self, now: Timestamp) -> (n: Note)
        ensures
            n@ == (NoteView {
                id: 0,
                text: join_with(self@.text.lines, '\n'),
                creation_date: self@.creation_date,
                last_edited: now,
            }),
    {
        Note { id: 0, text: self.current_note_text(), creation_date: self.creation_date, last_edited: now }
    }

    fn save_snapshot(&mut self)
        requires
            old(self).wf(),
        ensures
            final(self).wf(),
            final(self)@ == (EditorView {
                history: old(self)@.history.pushed(snapshot_of(old(self)@.text)),
                ..old(self)@
            }),
    {
        let snapshot = Snapshot { text: self.text.duplicate(), cursor: self.text.cursor };
        proof {
            lemma_history_wf_kept(self@.history, snapshot@, snapshot@);
        }
        self.undo_stack.push(snapshot);
    }

    fn toggle_task_checkbox(&mut self)
        requires
            old(self).wf(),
        ensures
            final(self).wf(),
            final(self)@ == (EditorView {
                text: TextView {
                    lines: old(self)@.text.lines.update(
                        old(self)@.text.cursor.0 as int,
                        toggled_line(old(self)@.text.lines[old(self)@.text.cursor.0 as int]),
                    ),
                    focus: true,
                    ..old(self)@.text
                },
                ..old(self)@
            }),
    {
        let row = self.text.cursor.0;
        let toggled = toggle_task_line(self.text.lines[row].as_str());
        self.text.lines.set(row, toggled);
        self.text.focus = true;
        proof {
            assert(self@.text.lines =~= old(self)@.text.lines.update(
                row as int,
                toggled_line(old(self)@.text.lines[row as int]),
            ));
        }
    }

    fn move_in_history(&mut self, redo: bool) -> (a: Action)
        requires
            old(self).wf(),
        ensures
            final(self).wf(),
            (final(self)@, a) == history_moved(old(self)@, redo),
    {
        let current = Snapshot { text: self.text.duplicate(), cursor: self.text.cursor };
        proof {
            lemma_history_wf_kept(self@.history, current@, current@);
        }
        let back = if redo {
            self.undo_stack.redo(current)
        } else {
            self.undo_stack.undo(current)
        };
        if let Some(snapshot) = back {
            self.text = snapshot.text;
            self.text.focus = true;
            self.write = true;
        }
        Action::Noop
    }

    fn handle_edit(&mut self, key: Key) -> (a: Action)
        requires
            old(self).wf(),
            old(self)@.state == EditorStateView::Edit,
        ensures
            final(self).wf(),
            (final(self)@, a) == edit_step(old(self)@, key),
    {
        if key.ctrl {
            match key.code {
                KeyCode::Char('q') => {
                    self.state = EditorState::Exit;
                    return Action::BackToTitle;
                },
                KeyCode::Char('f') => {
                    self.state = EditorState::Search(Search::new());
                    return Action::Noop;
                },
                KeyCode::Char('r') => {
                    self.state = EditorState::Replace(Replace::new());
                    return Action::Noop;
                },
                KeyCode::Up => {
                    self.scroll_offset.0 = if self.scroll_offset.0 > 0 { self.scroll_offset.0 - 1 } else { 0 };
                    return Action::Noop;
                },
                KeyCode::Down => {
                    self.scroll_offset.0 = if self.scroll_offset.0 < u16::MAX { self.scroll_offset.0 + 1 } else { u16::MAX };
                    return Action::Noop;
                },
                KeyCode::Char('z') => {
                    return self.move_in_history(false);
                },
                KeyCode::Char('y') => {
                    return self.move_in_history(true);
                },
                KeyCode::Char('t') => {
                    self.toggle_task_checkbox();
                    self.write = true;
                    return Action::Noop;
                },
                KeyCode::Char('?') => {
                    self.show_help = !self.show_help;
                    return Action::Noop;
                },
                _ => {},
            }
        } else {
            let row = self.text.cursor.0;
            let col = self.text.cursor.1;
            let page: usize = if self.screen_size.0 >= 2 { (self.screen_size.0 - 2) as usize } else { 0 };
            match key.code {
                KeyCode::Esc => {
                    self.state = EditorState::Exit;
                    return Action::BackToTitle;
                },
                KeyCode::Home => {
                    self.text.cursor = Cursor(row, 0);
                    self.text.focus = true;
                    return Action::Noop;
                },
                KeyCode::End => {
                    let len = self.text.lines[row].as_str().len();
                    self.text.cursor = Cursor(row, len);
                    self.text.focus = true;
                    return Action::Noop;
                },
                KeyCode::PageUp => {
                    let r = if row >= page { row - page } else { 0 };
                    self.text.cursor = Cursor(r, col);
                    self.text.focus = true;
                    return Action::Noop;
                },
                KeyCode::PageDown => {
                    let last = self.text.lines.len() - 1;
                    let r = if page <= last - row { row + page } else { last };
                    self.text.cursor = Cursor(r, col);
                    self.text.focus = true;
                    return Action::Noop;
                },
                _ => {},
            }
        }
        self.save_snapshot();
        self.text.apply_key(&key);
        self.write = true;
        self.focus_scroll_on_cursor();
        Action::Noop
    }

    /// Moves the view just enough to show the cursor's line.
    fn focus_scroll_on_cursor(&mut self)
        requires
            old(self).wf(),
        ensures
            final(self).wf(),
            final(self)@ == (EditorView {
                scroll_offset: (
                    scroll_following(old(self)@.scroll_offset.0, old(self)@.screen_size.0, old(self)@.text.cursor.0),
                    old(self)@.scroll_offset.1,
                ),
                ..old(self)@
            }),
    {
        let row = self.text.cursor.0;
        let top = self.scroll_offset.0;
        let height = self.screen_size.0;
        if row < top as usize {
            self.scroll_offset.0 = row as u16;
        } else if height > 0 && row >= top as usize + height as usize {
            let first = row - height as usize + 1;
            self.scroll_offset.0 = if first <= u16::MAX as usize { first as u16 } else { u16::MAX };
        }
    }

    /// A key press in the search bar `search`, which has been taken out of
    /// the editor's state.
    fn handle_search(&mut self, search: Search, key: Key) -> (a: Action)
        requires
            old(self).wf(),
            old(self)@.state == EditorStateView::Edit,
            search.text.wf(),
        ensures
            final(self).wf(),
            ({
                let v = EditorView { state: EditorStateView::Search(search.text@), ..old(self)@ };
                (final(self)@, a) == search_step(v, key)
            }),
    {
        match key.code {
            KeyCode::Esc | KeyCode::Enter => {
                self.state = EditorState::Edit;
            },
            _ => {
                let mut search = search;
                search.text.apply_key(&key);
                self.state = EditorState::Search(search);
            },
        }
        Action::Noop
    }

    /// A key press in the replace bar `replace`, which has been taken out of
    /// the editor's state.
    fn handle_replace(&mut self, replace: Replace, key: Key) -> (a: Action)
        requires
            old(self).wf(),
            old(self)@.state == EditorStateView::Edit,
            replace.text.wf(),
        ensures
            final(self).wf(),
            ({
                let v = EditorView { state: EditorStateView::Replace(replace.text@, replace.stage), ..old(self)@ };
                (final(self)@, a) == replace_step(v, replace.text@, key)
            }),
    {
        match key.code {
            KeyCode::Esc => {
                self.state = EditorState::Edit;
            },
            KeyCode::Enter => {
                if let Some(replacement) = replace.get_replacement() {
                    self.text = replacement;
                    self.write = true;
                }
                self.state = EditorState::Edit;
            },
            _ => {
                let mut replace = replace;
                replace.text.apply_key(&key);
                self.state = EditorState::Replace(replace);
            },
        }
        Action::Noop
    }

    /// Handles a key press.
    pub fn handle_event(&mut self, key: Key) -> (a: Action)
        requires
            old(self).wf(),
        ensures
            final(self).wf(),
            final(self)@.wf(),
            (final(self)@, a) == editor_step(old(self)@, key),
    {
        if key.ctrl {
            match key.code {
                KeyCode::Char('w') => {
                    self.write = true;
                    return Action::Noop;
                },
                KeyCode::Char('j') => {
                    self.side_panel = !self.side_panel;
                    return Action::Noop;
                },
                _ => {},
            }
        }
        let mut st = EditorState::Edit;
        std::mem::swap(&mut st, &mut self.state);
        match st {
            EditorState::Edit => {
                self.handle_edit(key)
            },
            EditorState::Exit => {
                self.state = EditorState::Exit;
                Action::BackToTitle
            },
            EditorState::Search(search) => self.handle_search(search, key),
            EditorState::Replace(replace) => self.handle_replace(replace, key),
        }
    }
}

} // verus!
