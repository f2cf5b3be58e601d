use vstd::prelude::*;

use crate::editor::{open_box, ticked_box};
use crate::strings::{chars_of, find_chars, first_occurrence, occurs_at, push_char, string_of_range};
use crate::text::Cursor;

verus! {

/// A rectangle of the screen.
#[derive(Clone, Copy, Debug, PartialEq, Eq, Structural)]
pub struct Area {
    pub x: u16,
    pub y: u16,
    pub width: u16,
    pub height: u16,
}

pub open spec fn sat_sub(a: int, b: int) -> int {
    if a >= b { a - b } else { 0 }
}

pub open spec fn min_int(a: int, b: int) -> int {
    if a <= b { a } else { b }
}

/// A `width` by `height` box centred in `area` (by its size alone), shrunk
/// to fit.
pub fn centered_rect(width: u16, height: u16, area: Area) -> (r: Area)
    ensures
        r.x == sat_sub(area.width as int, width as int) / 2,
        r.y == sat_sub(area.height as int, height as int) / 2,
        r.width == min_int(width as int, area.width as int),
        r.height == min_int(height as int, area.height as int),
{
    let dx = if area.width >= width { area.width - width } else { 0 };
    let dy = if area.height >= height { area.height - height } else { 0 };
    Area {
        x: dx / 2,
        y: dy / 2,
        width: if width <= area.width { width } else { area.width },
        height: if height <= area.height { height } else { area.height },
    }
}

/// How a line of the buffer is drawn: plain, or around its first task box,
/// open or ticked.
#[derive(Clone, Debug, PartialEq)]
pub enum TaskLine {
    Plain,
    Open { before: String, after: String },
    Done { before: String, after: String },
}

/// The text before and after the box at `i`.
pub open spec fn around_box(s: Seq<char>, i: int) -> (Seq<char>, Seq<char>) {
    (s.take(i), s.skip(i + 5))
}

/// How `s` is drawn: around its first open box; else around its first box
/// ticked with `x`; else around its first box ticked with `X`; else plain.
pub open spec fn task_line_of(s: Seq<char>) -> Option<(bool, Seq<char>, Seq<char>)> {
    match first_occurrence(s, open_box()) {
        Some(i) => Some((false, around_box(s, i).0, around_box(s, i).1)),
        None => match first_occurrence(s, ticked_box('x')) {
            Some(i) => Some((true, around_box(s, i).0, around_box(s, i).1)),
            None => match first_occurrence(s, ticked_box('X')) {
                Some(i) => Some((true, around_box(s, i).0, around_box(s, i).1)),
                None => None,
            },
        },
    }
}

fn box_chars(mark: char) -> (v: Vec<char>)
    ensures
        v@ == ticked_box(mark),
{
    let mut v: Vec<char> = Vec::new();
    v.push('-');
    v.push(' ');
    v.push('[');
    v.push(mark);
    v.push(']');
    assert(v@ =~= ticked_box(mark));
    v
}

fn split_around(cs: &Vec<char>, i: usize) -> (r: (String, String))
    requires
        i + 5 <= cs.len(),
    ensures
        r.0@ == around_box(cs@, i as int).0,
        r.1@ == around_box(cs@, i as int).1,
{
    let before = string_of_range(cs, 0, i);
    let after = string_of_range(cs, i + 5, cs.len());
    assert(cs@.subrange(0, i as int) =~= cs@.take(i as int));
    assert(cs@.subrange(i + 5, cs@.len() as int) =~= cs@.skip(i + 5));
    (before, after)
}

/// How `line` is drawn with respect to task boxes.
pub fn task_line(line: &str) -> (r: TaskLine)
    ensures
        match task_line_of(line@) {
            None => r == TaskLine::Plain,
            Some((done, before, after)) => match r {
                TaskLine::Plain => false,
                TaskLine::Open { before: b, after: a } => !done && b@ == before && a@ == after,
                TaskLine::Done { before: b, after: a } => done && b@ == before && a@ == after,
            },
        },
{
    let cs = chars_of(line);
    match find_chars(&cs, &box_chars(' ')) {
        Some(i) => {
            let (before, after) = split_around(&cs, i);
            TaskLine::Open { before, after }
        },
        None => match find_chars(&cs, &box_chars('x')) {
            Some(i) => {
                let (before, after) = split_around(&cs, i);
                TaskLine::Done { before, after }
            },
            None => match find_chars(&cs, &box_chars('X')) {
                Some(i) => {
                    let (before, after) = split_around(&cs, i);
                    TaskLine::Done { before, after }
                },
                None => TaskLine::Plain,
            },
        },
    }
}

/// The line drawn with a cursor: the text before the cursor, the character
/// under it (an underscore past the end or on a space), and the text after.
pub open spec fn cursor_parts(s: Seq<char>, col: int) -> (Seq<char>, char, Seq<char>) {
    let n = s.len() as int;
    let c = if col < n { s[col] } else { '_' };
    (s.take(min_int(col, n)), if c == ' ' { '_' } else { c }, s.skip(min_int(col + 1, n)))
}

/// Splits `line` around the cursor column `col`.
pub fn cursor_split(line: &str, col: usize) -> (r: (String, char, String))
    requires
        col < usize::MAX,
    ensures
        (r.0@, r.1, r.2@) == cursor_parts(line@, col as int),
{
    let cs = chars_of(line);
    let n = cs.len();
    let left_end = if col <= n { col } else { n };
    let right_start = if col + 1 <= n { col + 1 } else { n };
    let c = if col < n { cs[col] } else { '_' };
    let shown = if c == ' ' { '_' } else { c };
    let left = string_of_range(&cs, 0, left_end);
    let right = string_of_range(&cs, right_start, n);
    assert(cs@.subrange(0, left_end as int) =~= cs@.take(left_end as int));
    assert(cs@.subrange(right_start as int, n as int) =~= cs@.skip(right_start as int));
    (left, shown, right)
}

/// One line of a drawn selection: its index, and the text before, inside
/// and after the selection.
#[derive(Clone, Debug, PartialEq)]
pub struct SelectedLine {
    pub line: usize,
    pub before: String,
    pub selected: String,
    pub after: String,
}

/// Cursor order: by line, then by column.
pub open spec fn cursor_after(a: Cursor, b: Cursor) -> bool {
    a.0 > b.0 || (a.0 == b.0 && a.1 > b.1)
}

/// The ends of the selection between `cursor` and `anchor`, earlier first.
pub open spec fn selection_ends(cursor: Cursor, anchor: Cursor) -> (Cursor, Cursor) {
    if cursor_after(cursor, anchor) { (anchor, cursor) } else { (cursor, anchor) }
}

/// How the selection between `cursor` and `anchor` is drawn over `lines`:
/// on a single line, from the start column through the end column; over
/// several lines, from the start column to the end of the first line, whole
/// lines between, and up to (not including) the end column on the last.
pub open spec fn selection_parts(lines: Seq<Seq<char>>, cursor: Cursor, anchor: Cursor) -> Seq<(int, Seq<char>, Seq<char>, Seq<char>)> {
    let (s, e) = selection_ends(cursor, anchor);
    if s.0 == e.0 {
        let l = lines[s.0 as int];
        let n = l.len() as int;
        let a = min_int(s.1 as int, n);
        let b = min_int(e.1 as int, n - 1) + 1;
        seq![(s.0 as int, l.take(a), l.subrange(a, b), l.skip(min_int(e.1 + 1, n)))]
    } else {
        let first = lines[s.0 as int];
        let last = lines[e.0 as int];
        let a = min_int(s.1 as int, first.len() as int);
        let b = min_int(e.1 as int, last.len() as int);
        seq![(s.0 as int, first.take(a), first.skip(a), Seq::<char>::empty())] + Seq::new(
            (e.0 - s.0 - 1) as nat,
            |k: int| (s.0 + 1 + k, Seq::<char>::empty(), lines[s.0 + 1 + k], Seq::<char>::empty()),
        ) + seq![(e.0 as int, Seq::<char>::empty(), last.take(b), last.skip(b))]
    }
}

/// Whether the selection between `cursor` and `anchor` can be drawn over
/// `lines`: both ends on existing lines, and a one-line selection on a line
/// that is not empty.
pub open spec fn selection_drawable(lines: Seq<Seq<char>>, cursor: Cursor, anchor: Cursor) -> bool {
    let (s, e) = selection_ends(cursor, anchor);
    &&& s.0 < lines.len()
    &&& e.0 < lines.len()
    &&& e.1 < usize::MAX
    &&& s.0 == e.0 ==> lines[s.0 as int].len() > 0
}

/// The view of a drawn selection line.
pub open spec fn selected_view(l: SelectedLine) -> (int, Seq<char>, Seq<char>, Seq<char>) {
    (l.line as int, l.before@, l.selected@, l.after@)
}

/// Splits the lines that the selection between `cursor` and `anchor`
/// covers.
pub fn selection_split(lines: &Vec<String>, cursor: Cursor, anchor: Cursor) -> (r: Vec<SelectedLine>)
    requires
        selection_drawable(lines@.map_values(|l: String| l@), cursor, anchor),
    ensures
        r@.map_values(|l: SelectedLine| selected_view(l)) == selection_parts(
            lines@.map_values(|l: String| l@),
            cursor,
            anchor,
        ),
{
    let ghost ls = lines@.map_values(|l: String| l@);
    let after = cursor.0 > anchor.0 || (cursor.0 == anchor.0 && cursor.1 > anchor.1);
    let (s, e) = if after { (anchor, cursor) } else { (cursor, anchor) };
    let mut out: Vec<SelectedLine> = Vec::new();
    if s.0 == e.0 {
        let cs = chars_of(lines[s.0].as_str());
        let n = cs.len();
        let a = if s.1 <= n { s.1 } else { n };
        let b = if e.1 <= n - 1 { e.1 + 1 } else { n };
        let c = if e.1 + 1 <= n { e.1 + 1 } else { n };
        let before = string_of_range(&cs, 0, a);
        let selected = string_of_range(&cs, a, b);
        let rest = string_of_range(&cs, c, n);
        out.push(SelectedLine { line: s.0, before, selected, after: rest });
        proof {
            assert(ls[s.0 as int] == cs@);
            assert(cs@.subrange(0, a as int) =~= cs@.take(a as int));
            assert(cs@.subrange(c as int, n as int) =~= cs@.skip(c as int));
            assert(out@.map_values(|l: SelectedLine| selected_view(l)) =~= selection_parts(ls, cursor, anchor));
        }
        return out;
    }
    let first = chars_of(lines[s.0].as_str());
    let fa = if s.1 <= first.len() { s.1 } else { first.len() };
    let before = string_of_range(&first, 0, fa);
    let selected = string_of_range(&first, fa, first.len());
    let e3 = String::new();
    out.push(SelectedLine { line: s.0, before, selected, after: e3 });
    proof {
        assert(ls[s.0 as int] == first@);
        assert(first@.subrange(0, fa as int) =~= first@.take(fa as int));
        assert(first@.subrange(fa as int, first@.len() as int) =~= first@.skip(fa as int));
    }
    let ghost head = out@.map_values(|l: SelectedLine| selected_view(l));
    let mut k: usize = s.0 + 1;
    while k < e.0
        invariant
            s.0 < k <= e.0,
            e.0 < lines@.len(),
            ls == lines@.map_values(|l: String| l@),
            out@.len() == k - s.0,
            out@.map_values(|l: SelectedLine| selected_view(l)) == head + Seq::new(
                (k - s.0 - 1) as nat,
                |j: int| (s.0 + 1 + j, Seq::<char>::empty(), ls[s.0 + 1 + j], Seq::<char>::empty()),
            ),
        decreases e.0 - k,
    {
        let whole = lines[k].clone();
        let ghost prev = out@.map_values(|l: SelectedLine| selected_view(l));
        let e1 = String::new();
        let e2 = String::new();
        out.push(SelectedLine { line: k, before: e1, selected: whole, after: e2 });
        proof {
            assert(ls[k as int] == lines@[k as int]@);
            assert(out@.map_values(|l: SelectedLine| selected_view(l)) =~= prev.push(
                (k as int, Seq::<char>::empty(), ls[k as int], Seq::<char>::empty()),
            ));
        }
        k = k + 1;
        proof {
            assert(out@.map_values(|l: SelectedLine| selected_view(l)) =~= head + Seq::new(
                (k - s.0 - 1) as nat,
                |j: int| (s.0 + 1 + j, Seq::<char>::empty(), ls[s.0 + 1 + j], Seq::<char>::empty()),
            ));
        }
    }
    let last = chars_of(lines[e.0].as_str());
    let lb = if e.1 <= last.len() { e.1 } else { last.len() };
    let sel = string_of_range(&last, 0, lb);
    let rest = string_of_range(&last, lb, last.len());
    let ghost mid = out@.map_values(|l: SelectedLine| selected_view(l));
    let e0 = String::new();
    out.push(SelectedLine { line: e.0, before: e0, selected: sel, after: rest });
    proof {
        assert(selection_ends(cursor, anchor) == (s, e));
        assert(out@.map_values(|l: SelectedLine| selected_view(l)) =~= mid.push(
            (e.0 as int, Seq::<char>::empty(), last@.take(lb as int), last@.skip(lb as int)),
        ));
        assert(ls[e.0 as int] == last@);
        assert(last@.subrange(0, lb as int) =~= last@.take(lb as int));
        assert(last@.subrange(lb as int, last@.len() as int) =~= last@.skip(lb as int));
        assert(out@.map_values(|l: SelectedLine| selected_view(l)) =~= selection_parts(ls, cursor, anchor));
    }
    out
}

/// `s` cut into the pieces that search highlighting draws: the matches of
/// `pat`, found from the left without overlapping (marked `true`), and the
/// non-empty runs of text between them (marked `false`); `run` is plain
/// text already read.
pub open spec fn highlight_pieces(s: Seq<char>, pat: Seq<char>, run: Seq<char>) -> Seq<(Seq<char>, bool)>
    decreases s.len(),
{
    if pat.len() == 0 || s.len() < pat.len() {
        let rest = run + s;
        if rest.len() > 0 { seq![(rest, false)] } else { Seq::empty() }
    } else if s.take(pat.len() as int) == pat {
        (if run.len() > 0 { seq![(run, false)] } else { Seq::empty() }) + seq![(pat, true)]
            + highlight_pieces(s.skip(pat.len() as int), pat, Seq::empty())
    } else {
        highlight_pieces(s.skip(1), pat, run.push(s[0]))
    }
}

/// The view of a list of highlight pieces.
pub open spec fn pieces_view(v: Seq<(String, bool)>) -> Seq<(Seq<char>, bool)> {
    v.map_values(|p: (String, bool)| (p.0@, p.1))
}

/// Cuts `line` into plain text and matches of `search` for highlighting;
/// `None` when `search` is empty or does not occur, and the line is drawn
/// as it is.
pub fn search_highlight(line: &str, search: &str) -> (r: Option<Vec<(String, bool)>>)
    ensures
        (search@.len() == 0 || first_occurrence(line@, search@) is None) ==> r is None,
        !(search@.len() == 0 || first_occurrence(line@, search@) is None) ==> (r matches Some(v)
            && pieces_view(v@) == highlight_pieces(line@, search@, Seq::empty())),
{
    let cs = chars_of(line);
    let ps = chars_of(search);
    if ps.len() == 0 {
        return None;
    }
    if find_chars(&cs, &ps).is_none() {
        return None;
    }
    let mut out: Vec<(String, bool)> = Vec::new();
    let mut run = String::new();
    let mut i: usize = 0;
    assert(line@.skip(0) =~= line@);
    assert(pieces_view(out@) + highlight_pieces(line@, search@, run@) =~= highlight_pieces(line@, search@, Seq::empty()));
    while i < cs.len()
        invariant
            cs@ == line@,
            ps@ == search@,
            ps.len() > 0,
            i <= cs.len(),
            highlight_pieces(line@, search@, Seq::empty()) == pieces_view(out@) + highlight_pieces(
                line@.skip(i as int),
                search@,
                run@,
            ),
        decreases cs.len() - i,
    {
        let ghost t = line@.skip(i as int);
        let ghost old_out = out@;
        let ghost old_run = run@;
        let flush_view = Ghost(if old_run.len() > 0 { seq![(old_run, false)] } else { Seq::<(Seq<char>, bool)>::empty() });
        if occurs_at(&cs, i, &ps) {
            if !run.as_str().is_empty() {
                out.push((run, false));
            }
            let m = string_of_range(&ps, 0, ps.len());
            out.push((m, true));
            run = String::new();
            proof {
                assert(ps@.subrange(0, ps@.len() as int) =~= ps@);
                assert(t.skip(search@.len() as int) =~= line@.skip(i + ps.len()));
                assert(pieces_view(out@) =~= pieces_view(old_out) + flush_view@ + seq![(search@, true)]);
                assert(highlight_pieces(t, search@, old_run) == flush_view@ + seq![(search@, true)]
                    + highlight_pieces(t.skip(search@.len() as int), search@, Seq::empty()));
                assert(run@ =~= Seq::<char>::empty());
            }
            i = i + ps.len();
        } else {
            let c = cs[i];
            push_char(&mut run, c);
            proof {
                assert(t.skip(1) =~= line@.skip(i + 1));
                if t.len() < search@.len() {
                    assert(old_run + t =~= old_run.push(c) + t.skip(1));
                    assert(t.skip(1).len() < search@.len());
                }
            }
            i = i + 1;
        }
    }
    proof {
        assert(line@.skip(cs.len() as int) =~= Seq::<char>::empty());
        assert(run@ + Seq::<char>::empty() =~= run@);
    }
    let ghost old_out = out@;
    if !run.as_str().is_empty() {
        out.push((run, false));
    }
    proof {
        assert(pieces_view(out@) =~= pieces_view(old_out) + highlight_pieces(Seq::<char>::empty(), search@, run@));
    }
    Some(out)
}

} // verus!
