use vstd::prelude::*;

use crate::key::{Key, KeyCode};
use crate::strings::{
    chars_of, free_of, is_whitespace, join_strings, join_with, lemma_count_concat, lemma_split_join,
    lemma_split_len, split_on, split_string, string_of, string_of_range, white_space,
};
use crate::text::{lines_model, Cursor, Text, TextView};

verus! {

/// The cursor's column, clamped to the length of its line.
pub open spec fn col_of(t: TextView) -> int {
    let n = t.lines[t.cursor.0 as int].len() as int;
    if t.cursor.1 <= n { t.cursor.1 as int } else { n }
}

/// The cursor after inserting `s` at line `r`, column `c`: after the
/// inserted text.
pub open spec fn cursor_after_insert(r: int, c: int, s: Seq<char>) -> Cursor {
    let sp = split_on(s, '\n');
    if sp.len() == 1 {
        Cursor(r as usize, (c + s.len()) as usize)
    } else {
        Cursor((r + sp.len() - 1) as usize, sp.last().len() as usize)
    }
}

/// The buffer with `s` inserted at the cursor; the cursor ends after it
/// and the selection is dropped.
pub open spec fn insert_text(t: TextView, s: Seq<char>) -> TextView {
    let r = t.cursor.0 as int;
    let l = t.lines[r];
    let c = col_of(t);
    TextView {
        lines: t.lines.take(r) + split_on(l.take(c) + s + l.skip(c), '\n') + t.lines.skip(r + 1),
        cursor: cursor_after_insert(r, c, s),
        selection_start: None,
        ..t
    }
}

/// `a` names a place in the buffer no later than `b`.
pub open spec fn range_ok(t: TextView, a: Cursor, b: Cursor) -> bool {
    &&& a.0 <= b.0 < t.lines.len()
    &&& a.1 <= t.lines[a.0 as int].len()
    &&& b.1 <= t.lines[b.0 as int].len()
    &&& (a.0 < b.0 || a.1 <= b.1)
}

/// The buffer with the text from `a` up to `b` removed; the cursor ends at
/// `a` and the selection is dropped.
pub open spec fn delete_text(t: TextView, a: Cursor, b: Cursor) -> TextView {
    TextView {
        lines: t.lines.take(a.0 as int) + seq![t.lines[a.0 as int].take(a.1 as int) + t.lines[b.0 as int].skip(b.1 as int)]
            + t.lines.skip(b.0 + 1),
        cursor: a,
        selection_start: None,
        ..t
    }
}

/// The text from `a` up to `b`, lines joined by newlines.
pub open spec fn range_text(l: Seq<Seq<char>>, a: Cursor, b: Cursor) -> Seq<char> {
    if a.0 == b.0 {
        l[a.0 as int].subrange(a.1 as int, b.1 as int)
    } else {
        join_with(
            seq![l[a.0 as int].skip(a.1 as int)] + l.subrange(a.0 + 1, b.0 as int) + seq![l[b.0 as int].take(b.1 as int)],
            '\n',
        )
    }
}

/// The selection's start after a cursor move: kept (or started at the
/// cursor) while Shift is held, dropped otherwise.
pub open spec fn selection_after(t: TextView, shift: bool) -> Option<Cursor> {
    if shift {
        if t.selection_start is None { Some(t.cursor) } else { t.selection_start }
    } else {
        None
    }
}

/// The buffer with its cursor moved to `c`, the selection following
/// `selection_after`.
pub open spec fn moved(t: TextView, c: Cursor, shift: bool) -> TextView {
    TextView { cursor: c, selection_start: selection_after(t, shift), ..t }
}

/// One character left, or to the end of the line above.
pub open spec fn left_of(t: TextView) -> Cursor {
    let r = t.cursor.0 as int;
    let c = col_of(t);
    if c > 0 {
        Cursor(r as usize, (c - 1) as usize)
    } else if r > 0 {
        Cursor((r - 1) as usize, t.lines[r - 1].len() as usize)
    } else {
        Cursor(r as usize, c as usize)
    }
}

/// One character right, or to the start of the line below.
pub open spec fn right_of(t: TextView) -> Cursor {
    let r = t.cursor.0 as int;
    let c = col_of(t);
    if c < t.lines[r].len() {
        Cursor(r as usize, (c + 1) as usize)
    } else if r + 1 < t.lines.len() {
        Cursor((r + 1) as usize, 0)
    } else {
        Cursor(r as usize, c as usize)
    }
}

/// One line up, keeping the column.
pub open spec fn up_of(t: TextView) -> Cursor {
    if t.cursor.0 > 0 { Cursor((t.cursor.0 - 1) as usize, t.cursor.1) } else { t.cursor }
}

/// One line down, keeping the column.
pub open spec fn down_of(t: TextView) -> Cursor {
    if t.cursor.0 + 1 < t.lines.len() { Cursor((t.cursor.0 + 1) as usize, t.cursor.1) } else { t.cursor }
}

/// From column `c`, leftwards over the characters whose being white space
/// is `ws`.
pub open spec fn skip_left(l: Seq<char>, c: int, ws: bool) -> int
    decreases c,
{
    if c <= 0 || c > l.len() {
        c
    } else if white_space(l[c - 1]) == ws {
        skip_left(l, c - 1, ws)
    } else {
        c
    }
}

/// From column `c`, rightwards over the characters whose being white space
/// is `ws`.
pub open spec fn skip_right(l: Seq<char>, c: int, ws: bool) -> int
    decreases l.len() - c,
{
    if c < 0 || c >= l.len() {
        c
    } else if white_space(l[c]) == ws {
        skip_right(l, c + 1, ws)
    } else {
        c
    }
}

/// The start of the word left of column `c`: over white space, then over
/// the word.
pub open spec fn word_left(l: Seq<char>, c: int) -> int {
    skip_left(l, skip_left(l, c, true), false)
}

/// The end of the word right of column `c`: over white space, then over
/// the word.
pub open spec fn word_right(l: Seq<char>, c: int) -> int {
    skip_right(l, skip_right(l, c, true), false)
}

/// The ends of the selection, earlier first, columns clamped to their lines.
pub open spec fn selection_range(t: TextView) -> Option<(Cursor, Cursor)> {
    match t.selection_start {
        None => None,
        Some(s) => {
            let (a, b) = if t.cursor.0 > s.0 || (t.cursor.0 == s.0 && t.cursor.1 > s.1) {
                (s, t.cursor)
            } else {
                (t.cursor, s)
            };
            let la = t.lines[a.0 as int].len();
            let lb = t.lines[b.0 as int].len();
            Some((
                Cursor(a.0, if a.1 <= la { a.1 } else { la as usize }),
                Cursor(b.0, if b.1 <= lb { b.1 } else { lb as usize }),
            ))
        },
    }
}

/// Backspace: the character before the cursor goes, or the line joins the
/// one above.
pub open spec fn backspace_text(t: TextView) -> TextView {
    let r = t.cursor.0 as int;
    let c = col_of(t);
    if c > 0 {
        delete_text(t, Cursor(r as usize, (c - 1) as usize), Cursor(r as usize, c as usize))
    } else if r > 0 {
        delete_text(t, Cursor((r - 1) as usize, t.lines[r - 1].len() as usize), Cursor(r as usize, 0))
    } else {
        t
    }
}

/// Delete: the character under the cursor goes, or the line below joins
/// this one.
pub open spec fn delete_forward_text(t: TextView) -> TextView {
    let r = t.cursor.0 as int;
    let c = col_of(t);
    if c < t.lines[r].len() {
        delete_text(t, Cursor(r as usize, c as usize), Cursor(r as usize, (c + 1) as usize))
    } else if r + 1 < t.lines.len() {
        delete_text(t, Cursor(r as usize, c as usize), Cursor((r + 1) as usize, 0))
    } else {
        t
    }
}

/// Control and Backspace: the word before the cursor goes; at a line's
/// start, as Backspace.
pub open spec fn backspace_word_text(t: TextView) -> TextView {
    let r = t.cursor.0 as int;
    let c = col_of(t);
    if c == 0 {
        backspace_text(t)
    } else {
        delete_text(t, Cursor(r as usize, word_left(t.lines[r], c) as usize), Cursor(r as usize, c as usize))
    }
}

/// Control and Delete: the word after the cursor goes; at a line's end, as
/// Delete.
pub open spec fn delete_word_text(t: TextView) -> TextView {
    let r = t.cursor.0 as int;
    let c = col_of(t);
    if c == t.lines[r].len() {
        delete_forward_text(t)
    } else {
        delete_text(t, Cursor(r as usize, c as usize), Cursor(r as usize, word_right(t.lines[r], c) as usize))
    }
}

/// The buffer after a key press that edits it or moves in it.
pub open spec fn text_input(t: TextView, key: Key) -> TextView {
    let r = t.cursor.0 as int;
    let c = col_of(t);
    if key.ctrl {
        match key.code {
            KeyCode::Char('c') => match selection_range(t) {
                Some((a, b)) => TextView { clipboard: range_text(t.lines, a, b), ..t },
                None => t,
            },
            KeyCode::Char('p') => insert_text(t, t.clipboard),
            KeyCode::Char('x') => match selection_range(t) {
                Some((a, b)) => delete_text(TextView { clipboard: range_text(t.lines, a, b), ..t }, a, b),
                None => t,
            },
            KeyCode::Backspace => backspace_word_text(t),
            KeyCode::Delete => delete_word_text(t),
            KeyCode::Left => moved(
                t,
                if c == 0 { left_of(t) } else { Cursor(r as usize, word_left(t.lines[r], c) as usize) },
                key.shift,
            ),
            KeyCode::Right => moved(
                t,
                if c == t.lines[r].len() { right_of(t) } else { Cursor(r as usize, word_right(t.lines[r], c) as usize) },
                key.shift,
            ),
            _ => t,
        }
    } else {
        match key.code {
            KeyCode::Char(ch) => insert_text(t, seq![ch]),
            KeyCode::Enter => insert_text(t, seq!['\n']),
            KeyCode::Backspace => backspace_text(t),
            KeyCode::Delete => delete_forward_text(t),
            KeyCode::Left => moved(t, left_of(t), key.shift),
            KeyCode::Right => moved(t, right_of(t), key.shift),
            KeyCode::Up => moved(t, up_of(t), key.shift),
            KeyCode::Down => moved(t, down_of(t), key.shift),
            _ => t,
        }
    }
}

/// `a` with `ins` put in place of the `del` characters at `at`.
fn splice_chars(a: &Vec<char>, at: usize, del: usize, ins: &Vec<char>) -> (r: Vec<char>)
    requires
        at <= a.len(),
        del <= a.len() - at,
    ensures
        r@ == a@.take(at as int) + ins@ + a@.skip(at + del),
{
    let mut r: Vec<char> = Vec::new();
    let mut k: usize = 0;
    while k < at
        invariant
            k <= at <= a.len(),
            r@ == a@.take(k as int),
        decreases at - k,
    {
        r.push(a[k]);
        k = k + 1;
        assert(r@ =~= a@.take(k as int));
    }
    let mut k: usize = 0;
    while k < ins.len()
        invariant
            k <= ins.len(),
            at <= a.len(),
            r@ == a@.take(at as int) + ins@.take(k as int),
        decreases ins.len() - k,
    {
        r.push(ins[k]);
        k = k + 1;
        assert(r@ =~= a@.take(at as int) + ins@.take(k as int));
    }
    let mut k: usize = at + del;
    while k < a.len()
        invariant
            at + del <= k <= a.len(),
            r@ == a@.take(at as int) + ins@ + a@.subrange(at + del, k as int),
        decreases a.len() - k,
    {
        r.push(a[k]);
        k = k + 1;
        assert(r@ =~= a@.take(at as int) + ins@ + a@.subrange(at + del, k as int));
    }
    assert(ins@.take(ins@.len() as int) =~= ins@);
    assert(a@.subrange(at + del, a@.len() as int) =~= a@.skip(at + del));
    r
}

proof fn lemma_lines_push(v: Seq<String>, x: String)
    ensures
        lines_model(v.push(x)) == lines_model(v).push(x@),
{
    assert(lines_model(v.push(x)) =~= lines_model(v).push(x@));
}

/// `lines` with the lines from `from` up to `to` replaced by `mid`.
fn replace_lines(lines: &Vec<String>, from: usize, to: usize, mid: Vec<String>) -> (r: Vec<String>)
    requires
        from <= to <= lines.len(),
    ensures
        lines_model(r@) == lines_model(lines@).take(from as int) + lines_model(mid@) + lines_model(lines@).skip(to as int),
{
    let ghost lv = lines_model(lines@);
    let ghost mv = lines_model(mid@);
    let mut r: Vec<String> = Vec::new();
    let mut k: usize = 0;
    while k < from
        invariant
            k <= from <= to <= lines.len(),
            lv == lines_model(lines@),
            lines_model(r@) == lv.take(k as int),
        decreases from - k,
    {
        let ghost prev = r@;
        r.push(lines[k].clone());
        proof {
            lemma_lines_push(prev, lines@[k as int]);
            assert(lv.take(k + 1) =~= lv.take(k as int).push(lv[k as int]));
        }
        k = k + 1;
    }
    let mut k: usize = 0;
    while k < mid.len()
        invariant
            k <= mid.len(),
            from <= to <= lines.len(),
            lv == lines_model(lines@),
            mv == lines_model(mid@),
            lines_model(r@) == lv.take(from as int) + mv.take(k as int),
        decreases mid.len() - k,
    {
        let ghost prev = r@;
        r.push(mid[k].clone());
        proof {
            lemma_lines_push(prev, mid@[k as int]);
            assert(mv.take(k + 1) =~= mv.take(k as int).push(mv[k as int]));
            assert(lv.take(from as int) + mv.take(k + 1) =~= (lv.take(from as int) + mv.take(k as int)).push(mv[k as int]));
        }
        k = k + 1;
    }
    let mut k: usize = to;
    while k < lines.len()
        invariant
            to <= k <= lines.len(),
            from <= to,
            lv == lines_model(lines@),
            mv == lines_model(mid@),
            lines_model(r@) == lv.take(from as int) + mv + lv.subrange(to as int, k as int),
        decreases lines.len() - k,
    {
        let ghost prev = r@;
        r.push(lines[k].clone());
        proof {
            lemma_lines_push(prev, lines@[k as int]);
            assert(lv.take(from as int) + mv + lv.subrange(to as int, k + 1) =~= (lv.take(from as int) + mv
                + lv.subrange(to as int, k as int)).push(lv[k as int]));
        }
        k = k + 1;
    }
    assert(mv.take(mv.len() as int) =~= mv);
    assert(lv.subrange(to as int, lv.len() as int) =~= lv.skip(to as int));
    r
}

fn skip_left_exec(l: &Vec<char>, c: usize, ws: bool) -> (r: usize)
    requires
        c <= l.len(),
    ensures
        r == skip_left(l@, c as int, ws),
        r <= c,
    decreases c,
{
    if c == 0 {
        return 0;
    }
    if is_whitespace(l[c - 1]) == ws {
        skip_left_exec(l, c - 1, ws)
    } else {
        c
    }
}

fn skip_right_exec(l: &Vec<char>, c: usize, ws: bool) -> (r: usize)
    requires
        c <= l.len(),
    ensures
        r == skip_right(l@, c as int, ws),
        c <= r <= l.len(),
    decreases l.len() - c,
{
    if c == l.len() {
        return c;
    }
    if is_whitespace(l[c]) == ws {
        skip_right_exec(l, c + 1, ws)
    } else {
        c
    }
}

impl Text {
    /// The characters of line `r`.
    fn line_chars(&self, r: usize) -> (v: Vec<char>)
        requires
            r < self.lines@.len(),
        ensures
            v@ == self@.lines[r as int],
    {
        chars_of(self.lines[r].as_str())
    }

    /// The cursor's column clamped to its line, and that line.
    fn clamped(&self) -> (r: (usize, Vec<char>))
        requires
            self.wf(),
        ensures
            r.0 == col_of(self@),
            r.1@ == self@.lines[self.cursor.0 as int],
    {
        let l = self.line_chars(self.cursor.0);
        let c = if self.cursor.1 <= l.len() { self.cursor.1 } else { l.len() };
        (c, l)
    }

    /// Inserts `s` at the cursor.
    pub fn insert_chars(&mut self, s: &Vec<char>)
        requires
            old(self).wf(),
        ensures
            final(self)@ == insert_text(old(self)@, s@),
            final(self).wf(),
    {
        let r = self.cursor.0;
        let (c, l) = self.clamped();
        let t = splice_chars(&l, c, 0, s);
        let pieces = split_string(string_of(&t).as_str(), '\n');
        let sp = split_string(string_of(s).as_str(), '\n');
        let ghost old_view = self@;
        proof {
            assert(lines_model(pieces@) =~= split_on(t@, '\n'));
            let lt = l@.take(c as int);
            let ls = l@.skip(c as int);
            assert(t@ =~= lt + s@ + ls);
            lemma_split_len(t@, '\n');
            lemma_split_len(s@, '\n');
            lemma_count_concat(lt + s@, ls, '\n');
            lemma_count_concat(lt, s@, '\n');
            assert(l@.skip(c as int + 0) =~= ls);
        }
        // The lengths of these vectors bound the arithmetic below.
        let np = pieces.len();
        let n = self.lines.len();
        let tl = t.len();
        let new_lines = replace_lines(&self.lines, r, r + 1, pieces);
        let nl = new_lines.len();
        proof {
            assert(lines_model(new_lines@).len() == r + np + (n - r - 1));
            assert(lines_model(sp@) =~= split_on(s@, '\n'));
        }
        let cursor = if sp.len() == 1 {
            Cursor(r, c + s.len())
        } else {
            let last = chars_of(sp[sp.len() - 1].as_str());
            Cursor(r + sp.len() - 1, last.len())
        };
        self.lines = new_lines;
        self.cursor = cursor;
        self.selection_start = None;
        proof {
            assert(self@.lines =~= insert_text(old_view, s@).lines);
        }
    }

    /// Removes the text from `a` up to `b`.
    pub fn delete_between(&mut self, a: Cursor, b: Cursor)
        requires
            old(self).wf(),
            range_ok(old(self)@, a, b),
        ensures
            final(self)@ == delete_text(old(self)@, a, b),
            final(self).wf(),
    {
        let la = self.line_chars(a.0);
        let lb = self.line_chars(b.0);
        let mut joined: Vec<char> = Vec::new();
        let mut k: usize = 0;
        while k < a.1
            invariant
                k <= a.1 <= la.len(),
                joined@ == la@.take(k as int),
            decreases a.1 - k,
        {
            joined.push(la[k]);
            k = k + 1;
            assert(joined@ =~= la@.take(k as int));
        }
        let mut k: usize = b.1;
        while k < lb.len()
            invariant
                b.1 <= k <= lb.len(),
                a.1 <= la.len(),
                joined@ == la@.take(a.1 as int) + lb@.subrange(b.1 as int, k as int),
            decreases lb.len() - k,
        {
            joined.push(lb[k]);
            k = k + 1;
            assert(joined@ =~= la@.take(a.1 as int) + lb@.subrange(b.1 as int, k as int));
        }
        assert(lb@.subrange(b.1 as int, lb@.len() as int) =~= lb@.skip(b.1 as int));
        let mut mid: Vec<String> = Vec::new();
        mid.push(string_of(&joined));
        assert(lines_model(mid@) =~= seq![joined@]);
        let ghost old_view = self@;
        // The number of lines bounds `b.0 + 1`.
        let n = self.lines.len();
        let new_lines = replace_lines(&self.lines, a.0, b.0 + 1, mid);
        self.lines = new_lines;
        self.cursor = a;
        self.selection_start = None;
        proof {
            assert(self@.lines =~= delete_text(old_view, a, b).lines);
        }
    }

    /// The text from `a` up to `b`.
    fn text_between(&self, a: Cursor, b: Cursor) -> (s: String)
        requires
            self.wf(),
            range_ok(self@, a, b),
        ensures
            s@ == range_text(self@.lines, a, b),
    {
        let la = self.line_chars(a.0);
        if a.0 == b.0 {
            return string_of_range(&la, a.1, b.1);
        }
        let lb = self.line_chars(b.0);
        let ghost lv = self@.lines;
        let mut pieces: Vec<String> = Vec::new();
        pieces.push(string_of_range(&la, a.1, la.len()));
        assert(la@.subrange(a.1 as int, la@.len() as int) =~= la@.skip(a.1 as int));
        assert(lines_model(pieces@) =~= seq![la@.skip(a.1 as int)] + lv.subrange(a.0 + 1, a.0 + 1));
        let mut k: usize = a.0 + 1;
        while k < b.0
            invariant
                a.0 < k <= b.0 < self.lines@.len(),
                lv == self@.lines,
                lines_model(pieces@) == seq![la@.skip(a.1 as int)] + lv.subrange(a.0 + 1, k as int),
            decreases b.0 - k,
        {
            let ghost prev = pieces@;
            pieces.push(self.lines[k].clone());
            proof {
                lemma_lines_push(prev, self.lines@[k as int]);
                assert(seq![la@.skip(a.1 as int)] + lv.subrange(a.0 + 1, k + 1) =~= (seq![la@.skip(a.1 as int)]
                    + lv.subrange(a.0 + 1, k as int)).push(lv[k as int]));
            }
            k = k + 1;
        }
        let ghost prev = pieces@;
        let last = string_of_range(&lb, 0, b.1);
        pieces.push(last);
        proof { lemma_lines_push(prev, last); }
        assert(lb@.subrange(0, b.1 as int) =~= lb@.take(b.1 as int));
        assert(lines_model(pieces@) =~= seq![la@.skip(a.1 as int)] + lv.subrange(a.0 + 1, b.0 as int) + seq![lb@.take(b.1 as int)]);
        join_strings(&pieces, '\n')
    }

    /// The ends of the selection, earlier first, clamped to their lines.
    fn selection_ends(&self) -> (r: Option<(Cursor, Cursor)>)
        requires
            self.wf(),
        ensures
            r == selection_range(self@),
            r matches Some((a, b)) ==> range_ok(self@, a, b),
    {
        match self.selection_start {
            None => None,
            Some(s) => {
                let c = self.cursor;
                let (a, b) = if c.0 > s.0 || (c.0 == s.0 && c.1 > s.1) { (s, c) } else { (c, s) };
                let la = self.line_chars(a.0).len();
                let lb = self.line_chars(b.0).len();
                Some((
                    Cursor(a.0, if a.1 <= la { a.1 } else { la }),
                    Cursor(b.0, if b.1 <= lb { b.1 } else { lb }),
                ))
            },
        }
    }

    fn move_to(&mut self, c: Cursor, shift: bool)
        requires
            old(self).wf(),
            c.0 < old(self)@.lines.len(),
        ensures
            final(self)@ == moved(old(self)@, c, shift),
            final(self).wf(),
    {
        if shift {
            if self.selection_start.is_none() {
                self.selection_start = Some(self.cursor);
            }
        } else {
            self.selection_start = None;
        }
        self.cursor = c;
    }

    fn left_cursor(&self) -> (c: Cursor)
        requires
            self.wf(),
        ensures
            c == left_of(self@),
            c.0 < self@.lines.len(),
    {
        let r = self.cursor.0;
        let (col, _) = self.clamped();
        if col > 0 {
            Cursor(r, col - 1)
        } else if r > 0 {
            Cursor(r - 1, self.line_chars(r - 1).len())
        } else {
            Cursor(r, col)
        }
    }

    fn right_cursor(&self) -> (c: Cursor)
        requires
            self.wf(),
        ensures
            c == right_of(self@),
            c.0 < self@.lines.len(),
    {
        let r = self.cursor.0;
        let n = self.lines.len();
        let (col, l) = self.clamped();
        if col < l.len() {
            Cursor(r, col + 1)
        } else if r + 1 < n {
            Cursor(r + 1, 0)
        } else {
            Cursor(r, col)
        }
    }

    fn backspace(&mut self)
        requires
            old(self).wf(),
        ensures
            final(self)@ == backspace_text(old(self)@),
            final(self).wf(),
    {
        let r = self.cursor.0;
        let (c, _) = self.clamped();
        if c > 0 {
            self.delete_between(Cursor(r, c - 1), Cursor(r, c));
        } else if r > 0 {
            let n = self.line_chars(r - 1).len();
            self.delete_between(Cursor(r - 1, n), Cursor(r, 0));
        }
    }

    fn delete(&mut self)
        requires
            old(self).wf(),
        ensures
            final(self)@ == delete_forward_text(old(self)@),
            final(self).wf(),
    {
        let r = self.cursor.0;
        let n = self.lines.len();
        let (c, l) = self.clamped();
        if c < l.len() {
            self.delete_between(Cursor(r, c), Cursor(r, c + 1));
        } else if r + 1 < n {
            self.delete_between(Cursor(r, c), Cursor(r + 1, 0));
        }
    }

    fn backspace_word(&mut self)
        requires
            old(self).wf(),
        ensures
            final(self)@ == backspace_word_text(old(self)@),
            final(self).wf(),
    {
        let r = self.cursor.0;
        let (c, l) = self.clamped();
        if c == 0 {
            self.backspace();
        } else {
            let w = skip_left_exec(&l, skip_left_exec(&l, c, true), false);
            self.delete_between(Cursor(r, w), Cursor(r, c));
        }
    }

    fn delete_word(&mut self)
        requires
            old(self).wf(),
        ensures
            final(self)@ == delete_word_text(old(self)@),
            final(self).wf(),
    {
        let r = self.cursor.0;
        let (c, l) = self.clamped();
        if c == l.len() {
            self.delete();
        } else {
            let w = skip_right_exec(&l, skip_right_exec(&l, c, true), false);
            self.delete_between(Cursor(r, c), Cursor(r, w));
        }
    }

    fn word_left_cursor(&self) -> (to: Cursor)
        requires
            self.wf(),
        ensures
            to == (if col_of(self@) == 0 { left_of(self@) } else { Cursor(
                self.cursor.0,
                word_left(self@.lines[self.cursor.0 as int], col_of(self@)) as usize,
            ) }),
            to.0 < self@.lines.len(),
    {
        let (c, l) = self.clamped();
        if c == 0 {
            self.left_cursor()
        } else {
            Cursor(self.cursor.0, skip_left_exec(&l, skip_left_exec(&l, c, true), false))
        }
    }

    fn word_right_cursor(&self) -> (to: Cursor)
        requires
            self.wf(),
        ensures
            to == (if col_of(self@) == self@.lines[self.cursor.0 as int].len() { right_of(self@) } else { Cursor(
                self.cursor.0,
                word_right(self@.lines[self.cursor.0 as int], col_of(self@)) as usize,
            ) }),
            to.0 < self@.lines.len(),
    {
        let (c, l) = self.clamped();
        if c == l.len() {
            self.right_cursor()
        } else {
            Cursor(self.cursor.0, skip_right_exec(&l, skip_right_exec(&l, c, true), false))
        }
    }

    /// Copy, cut or paste.
    fn clipboard_key(&mut self, key: &Key)
        requires
            old(self).wf(),
            key.ctrl,
            key.code == KeyCode::Char('c') || key.code == KeyCode::Char('p') || key.code == KeyCode::Char('x'),
        ensures
            final(self)@ == text_input(old(self)@, *key),
            final(self).wf(),
    {
        if key.code == KeyCode::Char('p') {
            let clip = chars_of(self.clipboard.as_str());
            self.insert_chars(&clip);
        } else if let Some((a, b)) = self.selection_ends() {
            self.clipboard = self.text_between(a, b);
            if key.code == KeyCode::Char('x') {
                self.delete_between(a, b);
            }
        }
    }

    fn control_key(&mut self, key: &Key)
        requires
            old(self).wf(),
            key.ctrl,
        ensures
            final(self)@ == text_input(old(self)@, *key),
            final(self).wf(),
    {
        match key.code {
            KeyCode::Char('c') | KeyCode::Char('p') | KeyCode::Char('x') => self.clipboard_key(key),
            KeyCode::Backspace => self.backspace_word(),
            KeyCode::Delete => self.delete_word(),
            KeyCode::Left => {
                let to = self.word_left_cursor();
                self.move_to(to, key.shift);
            },
            KeyCode::Right => {
                let to = self.word_right_cursor();
                self.move_to(to, key.shift);
            },
            _ => {},
        }
    }

    fn plain_key(&mut self, key: &Key)
        requires
            old(self).wf(),
            !key.ctrl,
        ensures
            final(self)@ == text_input(old(self)@, *key),
            final(self).wf(),
    {
        let r = self.cursor.0;
        let n = self.lines.len();
        match key.code {
            KeyCode::Char(ch) => {
                let mut v: Vec<char> = Vec::new();
                v.push(ch);
                assert(v@ =~= seq![ch]);
                self.insert_chars(&v);
            },
            KeyCode::Enter => {
                let mut v: Vec<char> = Vec::new();
                v.push('\n');
                assert(v@ =~= seq!['\n']);
                self.insert_chars(&v);
            },
            KeyCode::Backspace => self.backspace(),
            KeyCode::Delete => self.delete(),
            KeyCode::Left => {
                let to = self.left_cursor();
                self.move_to(to, key.shift);
            },
            KeyCode::Right => {
                let to = self.right_cursor();
                self.move_to(to, key.shift);
            },
            KeyCode::Up => {
                let to = if r > 0 { Cursor(r - 1, self.cursor.1) } else { self.cursor };
                self.move_to(to, key.shift);
            },
            KeyCode::Down => {
                let to = if r + 1 < n { Cursor(r + 1, self.cursor.1) } else { self.cursor };
                self.move_to(to, key.shift);
            },
            _ => {},
        }
    }

    /// Applies a key press that edits the buffer or moves in it; other keys
    /// leave it as it is.
    pub fn apply_key(&mut self, key: &Key)
        requires
            old(self).wf(),
        ensures
            final(self)@ == text_input(old(self)@, *key),
            final(self).wf(),
    {
        if key.ctrl {
            self.control_key(key);
        } else {
            self.plain_key(key);
        }
    }
}


proof fn lemma_join_prepend(p: Seq<Seq<char>>, x: Seq<char>, sep: char)
    requires
        p.len() >= 1,
    ensures
        join_with(p.update(0, x + p[0]), sep) == x + join_with(p, sep),
    decreases p.len(),
{
    let q = p.update(0, x + p[0]);
    if p.len() > 1 {
        let p0 = p.drop_last();
        lemma_join_prepend(p0, x, sep);
        assert(q.drop_last() =~= p0.update(0, x + p0[0]));
        assert(q.last() == p.last());
        assert((x + join_with(p0, sep)).push(sep) + p.last() =~= x + (join_with(p0, sep).push(sep) + p.last()));
    }
}

proof fn lemma_join_append(p: Seq<Seq<char>>, y: Seq<char>, sep: char)
    requires
        p.len() >= 1,
    ensures
        join_with(p.update(p.len() - 1, p.last() + y), sep) == join_with(p, sep) + y,
{
    let q = p.update(p.len() - 1, p.last() + y);
    if p.len() > 1 {
        assert(q.drop_last() =~= p.drop_last());
        assert(join_with(p.drop_last(), sep).push(sep) + (p.last() + y) =~= (join_with(p.drop_last(), sep).push(sep)
            + p.last()) + y);
    }
}

/// Splitting a line that holds no newline gives that line alone.
proof fn lemma_split_single(x: Seq<char>)
    requires
        free_of(x, '\n'),
    ensures
        split_on(x, '\n') == seq![x],
{
    lemma_split_join(seq![x], '\n');
}

/// No line of the buffer holds a newline of its own.
pub open spec fn lines_free(t: TextView) -> bool {
    forall|i: int| 0 <= i < t.lines.len() ==> free_of(#[trigger] t.lines[i], '\n')
}

proof fn lemma_input_char(t: TextView, key: Key, ch: char)
    requires
        !key.ctrl,
        key.code == KeyCode::Char(ch),
    ensures
        text_input(t, key) == insert_text(t, seq![ch]),
{
}

proof fn lemma_input_backspace(t: TextView, key: Key)
    requires
        !key.ctrl,
        key.code == KeyCode::Backspace,
    ensures
        text_input(t, key) == backspace_text(t),
{
}

proof fn lemma_input_cut(t: TextView, key: Key)
    requires
        key.ctrl,
        key.code == KeyCode::Char('x'),
    ensures
        text_input(t, key) == match selection_range(t) {
            Some((a, b)) => delete_text(TextView { clipboard: range_text(t.lines, a, b), ..t }, a, b),
            None => t,
        },
{
}

proof fn lemma_input_paste(t: TextView, key: Key)
    requires
        key.ctrl,
        key.code == KeyCode::Char('p'),
    ensures
        text_input(t, key) == insert_text(t, t.clipboard),
{
}

/// Arrow keys, with or without Control or Shift, and copying move the
/// cursor or the selection only: the lines stay as they are.
pub proof fn law_moves_keep_lines(t: TextView, key: Key)
    requires
        key.code is Left || key.code is Right || key.code is Up || key.code is Down || (key.ctrl
            && key.code == KeyCode::Char('c')),
    ensures
        text_input(t, key).lines == t.lines,
        !(key.ctrl && key.code == KeyCode::Char('c')) ==> text_input(t, key).clipboard == t.clipboard,
{
}

/// Every arrow key, with or without Control, starts a selection at the
/// cursor when Shift is held and none is active, keeps an active one while
/// Shift is held, and drops it when Shift is not held; the lines and the
/// clipboard stay as they are.
pub proof fn law_arrows_select_with_shift(t: TextView, key: Key)
    requires
        key.code is Left || key.code is Right || key.code is Up || key.code is Down,
        !(key.ctrl && (key.code is Up || key.code is Down)),
    ensures
        text_input(t, key).selection_start == if !key.shift {
            None
        } else if t.selection_start is None {
            Some(t.cursor)
        } else {
            t.selection_start
        },
        text_input(t, key).lines == t.lines,
        text_input(t, key).clipboard == t.clipboard,
{
}

/// Without Control, Up and Down go to the line above or below, keeping the
/// cursor's column, and stay put on the first or last line; Left and Right
/// go one character back or on from the cursor's column (taken as at most
/// the line's length), crossing to the end of the line above or the start
/// of the line below at a line's ends, and stay put at the buffer's ends.
pub proof fn law_arrow_cursor(t: TextView, key: Key)
    requires
        t.wf(),
        !key.ctrl,
    ensures
        ({
            let r = t.cursor.0 as int;
            let n = t.lines[r].len();
            let c = if t.cursor.1 <= n { t.cursor.1 as int } else { n as int };
            let to = text_input(t, key).cursor;
            &&& key.code is Up ==> to == if r > 0 { Cursor((r - 1) as usize, t.cursor.1) } else { t.cursor }
            &&& key.code is Down ==> to == if r + 1 < t.lines.len() {
                Cursor((r + 1) as usize, t.cursor.1)
            } else {
                t.cursor
            }
            &&& key.code is Left ==> to == if c > 0 {
                Cursor(r as usize, (c - 1) as usize)
            } else if r > 0 {
                Cursor((r - 1) as usize, t.lines[r - 1].len() as usize)
            } else {
                Cursor(r as usize, 0)
            }
            &&& key.code is Right ==> to == if c < n {
                Cursor(r as usize, (c + 1) as usize)
            } else if r + 1 < t.lines.len() {
                Cursor((r + 1) as usize, 0)
            } else {
                Cursor(r as usize, c as usize)
            }
            &&& (key.code is Left || key.code is Right || key.code is Up || key.code is Down) ==> to.0 < t.lines.len()
        }),
{
}

proof fn lemma_insert_backspace(t: TextView, ch: char)
    requires
        t.wf(),
        ch != '\n',
        free_of(t.lines[t.cursor.0 as int], '\n'),
        t.lines[t.cursor.0 as int].len() < usize::MAX,
    ensures
        ({
            let t2 = backspace_text(insert_text(t, seq![ch]));
            t2.lines == t.lines && t2.cursor == Cursor(t.cursor.0, col_of(t) as usize)
        }),
{
    let r = t.cursor.0 as int;
    let l = t.lines[r];
    let c = col_of(t);
    let nl = l.take(c) + seq![ch] + l.skip(c);
    assert forall|i: int| 0 <= i < nl.len() implies nl[i] != '\n' by {
        if i < c {
            assert(nl[i] == l[i]);
        } else if i > c {
            assert(nl[i] == l[i - 1]);
        }
    }
    lemma_split_single(nl);
    lemma_split_single(seq![ch]);
    let t1 = insert_text(t, seq![ch]);
    assert(t1.lines =~= t.lines.update(r, nl));
    assert(t1.cursor == Cursor(r as usize, (c + 1) as usize));
    assert(col_of(t1) == c + 1);
    let t2 = backspace_text(t1);
    assert(nl.take(c) + nl.skip(c + 1) =~= l);
    assert(t2.lines =~= t.lines);
}

proof fn lemma_input_plain(t: TextView, key: Key)
    requires
        !key.ctrl,
    ensures
        key.code == KeyCode::Enter ==> text_input(t, key) == insert_text(t, seq!['\n']),
        key.code == KeyCode::Delete ==> text_input(t, key) == delete_forward_text(t),
{
}

proof fn lemma_insert_char(t: TextView, ch: char)
    requires
        t.wf(),
        ch != '\n',
        free_of(t.lines[t.cursor.0 as int], '\n'),
        t.lines[t.cursor.0 as int].len() < usize::MAX,
    ensures
        ({
            let r = t.cursor.0 as int;
            let l = t.lines[r];
            let c = col_of(t);
            let t1 = insert_text(t, seq![ch]);
            &&& t1.lines == t.lines.update(r, l.take(c) + seq![ch] + l.skip(c))
            &&& t1.cursor == Cursor(r as usize, (c + 1) as usize)
        }),
{
    let r = t.cursor.0 as int;
    let l = t.lines[r];
    let c = col_of(t);
    let nl = l.take(c) + seq![ch] + l.skip(c);
    assert forall|i: int| 0 <= i < nl.len() implies nl[i] != '\n' by {
        if i < c {
            assert(nl[i] == l[i]);
        } else if i > c {
            assert(nl[i] == l[i - 1]);
        }
    }
    lemma_split_single(nl);
    lemma_split_single(seq![ch]);
    assert(insert_text(t, seq![ch]).lines =~= t.lines.update(r, nl));
}

proof fn lemma_insert_newline(t: TextView)
    requires
        t.wf(),
        free_of(t.lines[t.cursor.0 as int], '\n'),
    ensures
        ({
            let r = t.cursor.0 as int;
            let l = t.lines[r];
            let c = col_of(t);
            let t1 = insert_text(t, seq!['\n']);
            &&& t1.lines == t.lines.take(r) + seq![l.take(c), l.skip(c)] + t.lines.skip(r + 1)
            &&& t1.cursor == Cursor((r + 1) as usize, 0)
        }),
{
    let r = t.cursor.0 as int;
    let l = t.lines[r];
    let c = col_of(t);
    let e = Seq::<char>::empty();
    let p = seq![l.take(c), l.skip(c)];
    assert forall|i: int| 0 <= i < p.len() implies free_of(#[trigger] p[i], '\n') by {
        if i == 0 {
            assert forall|k: int| 0 <= k < p[i].len() implies p[i][k] != '\n' by {
                assert(p[i][k] == l[k]);
            }
        } else {
            assert forall|k: int| 0 <= k < p[i].len() implies p[i][k] != '\n' by {
                assert(p[i][k] == l[c + k]);
            }
        }
    }
    lemma_split_join(p, '\n');
    assert(p.drop_last() =~= seq![l.take(c)]);
    assert(join_with(p.drop_last(), '\n') == l.take(c));
    assert(p.last() == l.skip(c));
    assert(join_with(p, '\n') == join_with(p.drop_last(), '\n').push('\n') + p.last());
    assert(l.take(c).push('\n') + l.skip(c) =~= l.take(c) + seq!['\n'] + l.skip(c));
    let q = seq![e, e];
    lemma_split_join(q, '\n');
    assert(q.drop_last() =~= seq![e]);
    assert(join_with(q.drop_last(), '\n') == e);
    assert(join_with(q, '\n') == join_with(q.drop_last(), '\n').push('\n') + q.last());
    assert(e.push('\n') + e =~= seq!['\n']);
}

/// Without Control: a character other than a newline goes in at the
/// cursor's column (taken as at most the line's length) and the cursor
/// moves past it; Enter breaks the line there and puts the cursor at the
/// start of the new line; Backspace removes the character before the
/// cursor, or joins the line to the one above at a line's start; Delete
/// removes the character under the cursor, or joins the next line to this
/// one at a line's end. Each drops the selection and keeps the clipboard.
pub proof fn law_editing_keys(t: TextView, key: Key)
    requires
        t.wf(),
        !key.ctrl,
        free_of(t.lines[t.cursor.0 as int], '\n'),
        t.lines.len() < usize::MAX,
        forall|i: int| 0 <= i < t.lines.len() ==> #[trigger] t.lines[i].len() < usize::MAX,
    ensures
        ({
            let r = t.cursor.0 as int;
            let l = t.lines[r];
            let n = l.len() as int;
            let c = if t.cursor.1 <= n { t.cursor.1 as int } else { n };
            let t1 = text_input(t, key);
            &&& (key.code matches KeyCode::Char(ch) && ch != '\n') ==> {
                &&& t1.lines == t.lines.update(r, l.take(c) + seq![key.code->Char_0] + l.skip(c))
                &&& t1.cursor == Cursor(r as usize, (c + 1) as usize)
                &&& t1.selection_start is None
            }
            &&& key.code == KeyCode::Enter ==> {
                &&& t1.lines == t.lines.take(r) + seq![l.take(c), l.skip(c)] + t.lines.skip(r + 1)
                &&& t1.cursor == Cursor((r + 1) as usize, 0)
                &&& t1.selection_start is None
            }
            &&& key.code == KeyCode::Backspace ==> if c > 0 {
                &&& t1.lines == t.lines.update(r, l.take(c - 1) + l.skip(c))
                &&& t1.cursor == Cursor(r as usize, (c - 1) as usize)
                &&& t1.selection_start is None
            } else if r > 0 {
                &&& t1.lines == t.lines.take(r - 1) + seq![t.lines[r - 1] + l] + t.lines.skip(r + 1)
                &&& t1.cursor == Cursor((r - 1) as usize, t.lines[r - 1].len() as usize)
                &&& t1.selection_start is None
            } else {
                t1 == t
            }
            &&& key.code == KeyCode::Delete ==> if c < n {
                &&& t1.lines == t.lines.update(r, l.take(c) + l.skip(c + 1))
                &&& t1.cursor == Cursor(r as usize, c as usize)
                &&& t1.selection_start is None
            } else if r + 1 < t.lines.len() {
                &&& t1.lines == t.lines.take(r) + seq![l + t.lines[r + 1]] + t.lines.skip(r + 2)
                &&& t1.cursor == Cursor(r as usize, c as usize)
                &&& t1.selection_start is None
            } else {
                t1 == t
            }
            &&& t1.clipboard == t.clipboard
        }),
{
    let r = t.cursor.0 as int;
    let l = t.lines[r];
    let n = l.len() as int;
    let c = col_of(t);
    lemma_input_plain(t, key);
    assert(t.lines[r].len() < usize::MAX);
    if r > 0 {
        assert(t.lines[r - 1].len() < usize::MAX);
    }
    if let KeyCode::Char(ch) = key.code {
        lemma_input_char(t, key, ch);
        if ch != '\n' {
            lemma_insert_char(t, ch);
        }
    } else if key.code == KeyCode::Enter {
        lemma_insert_newline(t);
    } else if key.code == KeyCode::Backspace {
        lemma_input_backspace(t, key);
        if c > 0 {
            assert(l.take(c - 1) + l.skip(c) =~= l.take(c - 1) + l.skip(c));
            assert(t.lines.take(r) + seq![l.take(c - 1) + l.skip(c)] + t.lines.skip(r + 1) =~= t.lines.update(
                r,
                l.take(c - 1) + l.skip(c),
            ));
        } else if r > 0 {
            assert(t.lines[r - 1].take(t.lines[r - 1].len() as int) =~= t.lines[r - 1]);
            assert(l.skip(0) =~= l);
        }
    } else if key.code == KeyCode::Delete {
        if c < n {
            assert(t.lines.take(r) + seq![l.take(c) + l.skip(c + 1)] + t.lines.skip(r + 1) =~= t.lines.update(
                r,
                l.take(c) + l.skip(c + 1),
            ));
        } else if r + 1 < t.lines.len() {
            assert(l.take(c) =~= l);
            assert(t.lines[r + 1].skip(0) =~= t.lines[r + 1]);
        }
    }
}

/// From column `c` of `l` back to `s` there is only white space, and from
/// `s` back to `w` none; `s` is the line's start or follows a character
/// that is not white space, and `w` the line's start or follows white space.
pub open spec fn word_start_split(l: Seq<char>, c: int, w: int, s: int) -> bool {
    &&& 0 <= w <= s <= c <= l.len()
    &&& forall|k: int| s <= k < c ==> white_space(#[trigger] l[k])
    &&& forall|k: int| w <= k < s ==> !white_space(#[trigger] l[k])
    &&& (s == 0 || !white_space(l[s - 1]))
    &&& (w == 0 || white_space(l[w - 1]))
}

/// `w` is where the word before column `c` of `l` starts: from `c` back
/// over white space, then back over the characters that are not.
pub open spec fn is_word_start_before(l: Seq<char>, c: int, w: int) -> bool {
    exists|s: int| #[trigger] word_start_split(l, c, w, s)
}

/// From column `c` of `l` on to `s` there is only white space, and from `s`
/// on to `w` none; `s` is the line's end or comes before a character that
/// is not white space, and `w` the line's end or comes before white space.
pub open spec fn word_end_split(l: Seq<char>, c: int, w: int, s: int) -> bool {
    &&& 0 <= c <= s <= w <= l.len()
    &&& forall|k: int| c <= k < s ==> white_space(#[trigger] l[k])
    &&& forall|k: int| s <= k < w ==> !white_space(#[trigger] l[k])
    &&& (s == l.len() || !white_space(l[s]))
    &&& (w == l.len() || white_space(l[w]))
}

/// `w` is where the word after column `c` of `l` ends: from `c` on over
/// white space, then on over the characters that are not.
pub open spec fn is_word_end_after(l: Seq<char>, c: int, w: int) -> bool {
    exists|s: int| #[trigger] word_end_split(l, c, w, s)
}

proof fn lemma_skip_left(l: Seq<char>, c: int, ws: bool)
    requires
        0 <= c <= l.len(),
    ensures
        0 <= skip_left(l, c, ws) <= c,
        forall|k: int| skip_left(l, c, ws) <= k < c ==> white_space(#[trigger] l[k]) == ws,
        skip_left(l, c, ws) == 0 || white_space(l[skip_left(l, c, ws) - 1]) != ws,
    decreases c,
{
    if c > 0 && white_space(l[c - 1]) == ws {
        lemma_skip_left(l, c - 1, ws);
    }
}

proof fn lemma_skip_right(l: Seq<char>, c: int, ws: bool)
    requires
        0 <= c <= l.len(),
    ensures
        c <= skip_right(l, c, ws) <= l.len(),
        forall|k: int| c <= k < skip_right(l, c, ws) ==> white_space(#[trigger] l[k]) == ws,
        skip_right(l, c, ws) == l.len() || white_space(l[skip_right(l, c, ws)]) != ws,
    decreases l.len() - c,
{
    if c < l.len() && white_space(l[c]) == ws {
        lemma_skip_right(l, c + 1, ws);
    }
}

proof fn lemma_word_left(l: Seq<char>, c: int)
    requires
        0 <= c <= l.len(),
    ensures
        is_word_start_before(l, c, word_left(l, c)),
        c > 0 ==> word_left(l, c) < c,
{
    let s = skip_left(l, c, true);
    lemma_skip_left(l, c, true);
    lemma_skip_left(l, s, false);
    let w = skip_left(l, s, false);
    assert(word_start_split(l, c, w, s));
}

proof fn lemma_word_right(l: Seq<char>, c: int)
    requires
        0 <= c <= l.len(),
    ensures
        is_word_end_after(l, c, word_right(l, c)),
        c < l.len() ==> word_right(l, c) > c,
{
    let s = skip_right(l, c, true);
    lemma_skip_right(l, c, true);
    lemma_skip_right(l, s, false);
    let w = skip_right(l, s, false);
    assert(word_end_split(l, c, w, s));
}

proof fn lemma_input_ctrl(t: TextView, key: Key)
    requires
        key.ctrl,
    ensures
        key.code is Left ==> text_input(t, key).cursor == if col_of(t) == 0 {
            left_of(t)
        } else {
            Cursor(t.cursor.0, word_left(t.lines[t.cursor.0 as int], col_of(t)) as usize)
        },
        key.code is Right ==> text_input(t, key).cursor == if col_of(t) == t.lines[t.cursor.0 as int].len() {
            right_of(t)
        } else {
            Cursor(t.cursor.0, word_right(t.lines[t.cursor.0 as int], col_of(t)) as usize)
        },
        key.code is Backspace ==> text_input(t, key) == backspace_word_text(t),
        key.code is Delete ==> text_input(t, key) == delete_word_text(t),
{
}

proof fn lemma_input_plain_moves(t: TextView, key: Key)
    requires
        !key.ctrl,
    ensures
        key.code is Left ==> text_input(t, key).cursor == left_of(t),
        key.code is Right ==> text_input(t, key).cursor == right_of(t),
{
}

/// With Control, Left goes to the start of the word before the cursor and
/// Right to the end of the word after it, within the line; at the line's
/// start or end they go on to the line above or below as Left and Right
/// do without Control.
pub proof fn law_word_moves(t: TextView, key: Key)
    requires
        t.wf(),
        key.ctrl,
        key.code is Left || key.code is Right,
        t.lines[t.cursor.0 as int].len() <= usize::MAX,
    ensures
        ({
            let r = t.cursor.0 as int;
            let l = t.lines[r];
            let n = l.len() as int;
            let c = if t.cursor.1 <= n { t.cursor.1 as int } else { n };
            let to = text_input(t, key).cursor;
            let plain = Key { ctrl: false, ..key };
            &&& key.code is Left ==> if c == 0 {
                to == text_input(t, plain).cursor
            } else {
                to.0 == r && to.1 < c && is_word_start_before(l, c, to.1 as int)
            }
            &&& key.code is Right ==> if c == n {
                to == text_input(t, plain).cursor
            } else {
                to.0 == r && to.1 > c && is_word_end_after(l, c, to.1 as int)
            }
        }),
{
    let l = t.lines[t.cursor.0 as int];
    let c = col_of(t);
    lemma_input_ctrl(t, key);
    lemma_input_plain_moves(t, Key { ctrl: false, ..key });
    lemma_word_left(l, c);
    lemma_word_right(l, c);
}

/// Control and Backspace removes the text from the start of the word
/// before the cursor up to the cursor, and Control and Delete the text from
/// the cursor up to the end of the word after it, within the line.
pub proof fn law_word_deletes(t: TextView, key: Key)
    requires
        t.wf(),
        key.ctrl,
        t.lines[t.cursor.0 as int].len() <= usize::MAX,
    ensures
        ({
            let r = t.cursor.0 as int;
            let l = t.lines[r];
            let n = l.len() as int;
            let c = col_of(t);
            let t1 = text_input(t, key);
            &&& (key.code is Backspace && c > 0) ==> exists|w: int|
                is_word_start_before(l, c, w) && w < c && t1.lines == t.lines.update(r, l.take(w) + l.skip(c))
                    && t1.cursor == Cursor(r as usize, w as usize)
            &&& (key.code is Delete && c < n) ==> exists|w: int|
                is_word_end_after(l, c, w) && w > c && t1.lines == t.lines.update(r, l.take(c) + l.skip(w))
                    && t1.cursor == Cursor(r as usize, c as usize)
        }),
{
    let r = t.cursor.0 as int;
    let l = t.lines[r];
    let n = l.len() as int;
    let c = col_of(t);
    lemma_input_ctrl(t, key);
    if key.code is Backspace && c > 0 {
        lemma_word_left(l, c);
        let w = word_left(l, c);
        assert(t.lines.take(r) + seq![l.take(w) + l.skip(c)] + t.lines.skip(r + 1) =~= t.lines.update(
            r,
            l.take(w) + l.skip(c),
        ));
        let t1 = text_input(t, key);
        assert(t1.lines == t.lines.update(r, l.take(w) + l.skip(c)));
        assert(is_word_start_before(l, c, w) && w < c && t1.lines == t.lines.update(r, l.take(w) + l.skip(c))
            && t1.cursor == Cursor(r as usize, w as usize));
        assert(exists|w: int|
            is_word_start_before(l, c, w) && w < c && t1.lines == t.lines.update(r, l.take(w) + l.skip(c))
                && t1.cursor == Cursor(r as usize, w as usize));
    }
    if key.code is Delete && c < n {
        lemma_word_right(l, c);
        let w = word_right(l, c);
        assert(t.lines.take(r) + seq![l.take(c) + l.skip(w)] + t.lines.skip(r + 1) =~= t.lines.update(
            r,
            l.take(c) + l.skip(w),
        ));
        let t1 = text_input(t, key);
        assert(t1.lines == t.lines.update(r, l.take(c) + l.skip(w)));
        assert(is_word_end_after(l, c, w) && w > c && t1.lines == t.lines.update(r, l.take(c) + l.skip(w))
            && t1.cursor == Cursor(r as usize, c as usize));
        assert(exists|w: int|
            is_word_end_after(l, c, w) && w > c && t1.lines == t.lines.update(r, l.take(c) + l.skip(w))
                && t1.cursor == Cursor(r as usize, c as usize));
    }
}

/// Control and `c` puts the selected text of a one-line selection on the
/// clipboard, and changes nothing else.
pub proof fn law_copy_one_line(t: TextView, key: Key)
    requires
        t.wf(),
        key.ctrl,
        key.code == KeyCode::Char('c'),
        t.selection_start matches Some(s) && s.0 == t.cursor.0,
    ensures
        ({
            let r = t.cursor.0 as int;
            let l = t.lines[r];
            let s = t.selection_start->0;
            let lo = if s.1 <= t.cursor.1 { s.1 } else { t.cursor.1 };
            let hi = if s.1 <= t.cursor.1 { t.cursor.1 } else { s.1 };
            let a = if lo <= l.len() { lo as int } else { l.len() as int };
            let b = if hi <= l.len() { hi as int } else { l.len() as int };
            text_input(t, key) == TextView { clipboard: l.subrange(a, b), ..t }
        }),
{
}

/// Typing a character other than a newline and then pressing Backspace
/// gives the buffer's lines back, with the cursor where the character went.
pub proof fn law_type_then_backspace(t: TextView, ch: char, shift: bool)
    requires
        t.wf(),
        ch != '\n',
        free_of(t.lines[t.cursor.0 as int], '\n'),
        t.lines[t.cursor.0 as int].len() < usize::MAX,
    ensures
        ({
            let t1 = text_input(t, Key { code: KeyCode::Char(ch), ctrl: false, shift });
            let t2 = text_input(t1, Key { code: KeyCode::Backspace, ctrl: false, shift });
            t2.lines == t.lines && t2.cursor == Cursor(t.cursor.0, col_of(t) as usize)
        }),
{
    let t1 = text_input(t, Key { code: KeyCode::Char(ch), ctrl: false, shift });
    lemma_input_char(t, Key { code: KeyCode::Char(ch), ctrl: false, shift }, ch);
    lemma_input_backspace(t1, Key { code: KeyCode::Backspace, ctrl: false, shift });
    lemma_insert_backspace(t, ch);
}

proof fn lemma_cut_paste(t: TextView)
    requires
        t.wf(),
        lines_free(t),
        t.selection_start is Some,
    ensures
        ({
            let (a, b) = selection_range(t).unwrap();
            let t1 = delete_text(TextView { clipboard: range_text(t.lines, a, b), ..t }, a, b);
            let t2 = insert_text(t1, t1.clipboard);
            t2.lines == t.lines && t2.cursor == b
        }),
{
    let (a, b) = selection_range(t).unwrap();
    let l = t.lines;
    let la = l[a.0 as int];
    let lb = l[b.0 as int];
    let a1 = a.1 as int;
    let b1 = b.1 as int;
    let rt = range_text(l, a, b);
    let t1 = delete_text(TextView { clipboard: rt, ..t }, a, b);
    let joined = la.take(a1) + lb.skip(b1);
    assert(t1.lines == l.take(a.0 as int) + seq![joined] + l.skip(b.0 + 1));
    assert(t1.lines[a.0 as int] == joined);
    assert(col_of(t1) == a1);
    assert(joined.take(a1) =~= la.take(a1));
    assert(joined.skip(a1) =~= lb.skip(b1));
    let whole = la.take(a1) + rt + lb.skip(b1);
    if a.0 == b.0 {
        assert(whole =~= la);
        lemma_split_single(la);
        assert forall|i: int| 0 <= i < rt.len() implies rt[i] != '\n' by {
            assert(rt[i] == la[a1 + i]);
        }
        lemma_split_single(rt);
    } else {
        let mid = l.subrange(a.0 + 1, b.0 as int);
        let p = seq![la.skip(a1)] + mid + seq![lb.take(b1)];
        assert forall|i: int| 0 <= i < p.len() implies free_of(#[trigger] p[i], '\n') by {
            if i == 0 {
                assert forall|k: int| 0 <= k < p[i].len() implies p[i][k] != '\n' by {
                    assert(p[i][k] == la[a1 + k]);
                }
            } else if i == p.len() - 1 {
                assert forall|k: int| 0 <= k < p[i].len() implies p[i][k] != '\n' by {
                    assert(p[i][k] == lb[k]);
                }
            } else {
                assert(p[i] == l[a.0 + i]);
            }
        }
        lemma_join_prepend(p, la.take(a1), '\n');
        let p1 = p.update(0, la.take(a1) + p[0]);
        lemma_join_append(p1, lb.skip(b1), '\n');
        let p2 = p1.update(p1.len() - 1, p1.last() + lb.skip(b1));
        assert(la.take(a1) + la.skip(a1) =~= la);
        assert(lb.take(b1) + lb.skip(b1) =~= lb);
        assert(p2 =~= seq![la] + mid + seq![lb]);
        assert(join_with(p2, '\n') =~= whole);
        assert forall|i: int| 0 <= i < p2.len() implies free_of(#[trigger] p2[i], '\n') by {
            assert(p2[i] == l[a.0 + i]);
        }
        lemma_split_join(p2, '\n');
        lemma_split_join(p, '\n');
    }
    let t2 = insert_text(t1, t1.clipboard);
    assert(t2.lines =~= l);
}

/// Cutting the selection and pasting it at once gives the buffer's lines
/// back, with the cursor at the selection's far end.
pub proof fn law_cut_then_paste(t: TextView, cut_shift: bool, paste_shift: bool)
    requires
        t.wf(),
        lines_free(t),
        t.selection_start is Some,
    ensures
        ({
            let t1 = text_input(t, Key { code: KeyCode::Char('x'), ctrl: true, shift: cut_shift });
            let t2 = text_input(t1, Key { code: KeyCode::Char('p'), ctrl: true, shift: paste_shift });
            let (a, b) = selection_range(t).unwrap();
            t2.lines == t.lines && t2.cursor == b && t1.clipboard == range_text(t.lines, a, b)
        }),
{
    let t1 = text_input(t, Key { code: KeyCode::Char('x'), ctrl: true, shift: cut_shift });
    lemma_input_cut(t, Key { code: KeyCode::Char('x'), ctrl: true, shift: cut_shift });
    lemma_input_paste(t1, Key { code: KeyCode::Char('p'), ctrl: true, shift: paste_shift });
    lemma_cut_paste(t);
}

} // verus!
