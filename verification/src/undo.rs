use vstd::prelude::*;

use crate::text::{same_lines, Cursor, Text, TextView};

verus! {

/// A saved state of the buffer that undo and redo can restore.
#[derive(Clone, Debug)]
pub struct Snapshot {
    pub text: Text,
    pub cursor: Cursor,
}

/// How many snapshots the history holds at most.
pub open spec fn history_limit() -> nat {
    100
}

/// The abstract state of a snapshot.
pub struct SnapshotView {
    pub text: TextView,
    pub cursor: Cursor,
}

impl View for Snapshot {
    type V = SnapshotView;

    open spec fn view(&self) -> SnapshotView {
        SnapshotView { text: self.text@, cursor: self.cursor }
    }
}

/// The abstract state of an undo history: what undo restores, most recent
/// last, and what redo restores, most recent last.
pub struct History {
    pub undos: Seq<SnapshotView>,
    pub redos: Seq<SnapshotView>,
}

/// Whether two snapshots hold the same lines.
pub open spec fn same_text(a: SnapshotView, b: SnapshotView) -> bool {
    a.text.lines == b.text.lines
}

impl History {
    /// The history after recording `s`: nothing changes when the latest
    /// snapshot already holds the same lines; otherwise `s` goes on top, the
    /// redo side is cleared, and the oldest snapshot drops out beyond the limit.
    pub open spec fn pushed(self, s: SnapshotView) -> History {
        if self.undos.len() > 0 && same_text(self.undos.last(), s) {
            self
        } else {
            let u = self.undos.push(s);
            History {
                undos: if u.len() > history_limit() { u.drop_first() } else { u },
                redos: Seq::empty(),
            }
        }
    }

    /// The history after undoing from the state `current`, and what undo
    /// hands back.
    pub open spec fn undone(self, current: SnapshotView) -> (History, Option<SnapshotView>) {
        if self.undos.len() == 0 {
            (self, None)
        } else {
            (
                History { undos: self.undos.drop_last(), redos: self.redos.push(current) },
                Some(self.undos.last()),
            )
        }
    }

    /// The history after redoing from the state `current`, and what redo
    /// hands back.
    pub open spec fn redone(self, current: SnapshotView) -> (History, Option<SnapshotView>) {
        if self.redos.len() == 0 {
            (self, None)
        } else {
            (
                History { undos: self.undos.push(current), redos: self.redos.drop_last() },
                Some(self.redos.last()),
            )
        }
    }

    /// Both sides together never hold more than the limit.
    pub open spec fn bounded(self) -> bool {
        self.undos.len() + self.redos.len() <= history_limit()
    }
}

/// The editor's undo and redo history.
#[derive(Debug)]
pub struct UndoStack {
    undo_stack: Vec<Snapshot>,
    redo_stack: Vec<Snapshot>,
    max_size: usize,
}

impl View for UndoStack {
    type V = History;

    closed spec fn view(&self) -> History {
        History {
            undos: self.undo_stack@.map_values(|s: Snapshot| s@),
            redos: self.redo_stack@.map_values(|s: Snapshot| s@),
        }
    }
}

impl UndoStack {
    /// The history is within its limit: undo and redo together hold at most
    /// a hundred snapshots.
    pub closed spec fn wf(&self) -> bool {
        &&& self.max_size == 100
        &&& self@.bounded()
    }

    /// An empty history.
    pub fn new() -> (s: Self)
        ensures
            s.wf(),
            s@.bounded(),
            s@.undos == Seq::<SnapshotView>::empty(),
            s@.redos == Seq::<SnapshotView>::empty(),
    {
        let s = UndoStack { undo_stack: Vec::new(), redo_stack: Vec::new(), max_size: 100 };
        assert(s@.undos =~= Seq::<SnapshotView>::empty());
        assert(s@.redos =~= Seq::<SnapshotView>::empty());
        s
    }

    /// Records `snapshot`, unless the latest one already holds the same lines.
    pub fn push(&mut self, snapshot: Snapshot)
        requires
            old(self).wf(),
        ensures
            final(self).wf(),
            final(self)@.bounded(),
            final(self)@ == old(self)@.pushed(snapshot@),
    {
        let n = self.undo_stack.len();
        proof {
            if n > 0 {
                assert(old(self)@.undos.last() == self.undo_stack@[n - 1]@);
            }
        }
        if n > 0 {
            if same_lines(&self.undo_stack[n - 1].text.lines, &snapshot.text.lines) {
                return;
            }
        }
        self.undo_stack.push(snapshot);
        self.redo_stack.clear();
        if self.undo_stack.len() > self.max_size {
            self.undo_stack.remove(0);
        }
        proof {
            let u = old(self)@.undos.push(snapshot@);
            if u.len() > history_limit() {
                assert(self@.undos =~= u.drop_first());
            } else {
                assert(self@.undos =~= u);
            }
            assert(self@.redos =~= Seq::<SnapshotView>::empty());
        }
    }

    /// Takes back the latest snapshot; `current` becomes what redo restores.
    pub fn undo(&mut self, current: Snapshot) -> (r: Option<Snapshot>)
        requires
            old(self).wf(),
        ensures
            final(self).wf(),
            final(self)@.bounded(),
            final(self)@ == old(self)@.undone(current@).0,
            r is Some <==> old(self)@.undone(current@).1 is Some,
            r matches Some(s) ==> old(self)@.undone(current@).1 == Some(s@),
    {
        match self.undo_stack.pop() {
            None => None,
            Some(popped) => {
                self.redo_stack.push(current);
                proof {
                    assert(self@.undos =~= old(self)@.undos.drop_last());
                    assert(self@.redos =~= old(self)@.redos.push(current@));
                }
                Some(popped)
            },
        }
    }

    /// Brings back the latest undone snapshot; `current` becomes what undo
    /// restores.
    pub fn redo(&mut self, current: Snapshot) -> (r: Option<Snapshot>)
        requires
            old(self).wf(),
        ensures
            final(self).wf(),
            final(self)@.bounded(),
            final(self)@ == old(self)@.redone(current@).0,
            r is Some <==> old(self)@.redone(current@).1 is Some,
            r matches Some(s) ==> old(self)@.redone(current@).1 == Some(s@),
    {
        match self.redo_stack.pop() {
            None => None,
            Some(popped) => {
                self.undo_stack.push(current);
                proof {
                    assert(self@.redos =~= old(self)@.redos.drop_last());
                    assert(self@.undos =~= old(self)@.undos.push(current@));
                }
                Some(popped)
            },
        }
    }
}

/// Recording a snapshot and then undoing hands back that snapshot, or, when
/// it was not recorded because the latest one already held the same lines,
/// one with the same lines.
pub proof fn law_undo_after_push(h: History, s: SnapshotView, current: SnapshotView)
    ensures
        h.pushed(s).undone(current).1 matches Some(back) && same_text(back, s),
        !(h.undos.len() > 0 && same_text(h.undos.last(), s)) ==> h.pushed(s).undone(current).1
            == Some(s),
{
}

/// Undoing and then redoing from the state that undo handed back restores
/// the history as it was, and redo hands back the state undo started from.
pub proof fn law_undo_then_redo(h: History, current: SnapshotView)
    requires
        h.undos.len() > 0,
    ensures
        ({
            let (h1, back) = h.undone(current);
            let (h2, fwd) = h1.redone(back.unwrap());
            h2 == h && fwd == Some(current)
        }),
{
    let (h1, back) = h.undone(current);
    assert(h1.redos.drop_last() =~= h.redos);
    assert(h.undos.drop_last().push(h.undos.last()) =~= h.undos);
}

/// Redoing and then undoing from the state that redo handed back restores
/// the history as it was, and undo hands back the state redo started from.
pub proof fn law_redo_then_undo(h: History, current: SnapshotView)
    requires
        h.redos.len() > 0,
    ensures
        ({
            let (h1, fwd) = h.redone(current);
            let (h2, back) = h1.undone(fwd.unwrap());
            h2 == h && back == Some(current)
        }),
{
    let (h1, fwd) = h.redone(current);
    assert(h1.undos.drop_last() =~= h.undos);
    assert(h.redos.drop_last().push(h.redos.last()) =~= h.redos);
}

/// Every operation keeps the history within its limit.
pub proof fn law_history_bounded(h: History, s: SnapshotView, current: SnapshotView)
    requires
        h.bounded(),
    ensures
        h.pushed(s).bounded(),
        h.undone(current).0.bounded(),
        h.redone(current).0.bounded(),
{
}

/// Recording a snapshot with new lines forgets everything that redo could
/// have restored.
pub proof fn law_push_clears_redo(h: History, s: SnapshotView, current: SnapshotView)
    requires
        !(h.undos.len() > 0 && same_text(h.undos.last(), s)),
    ensures
        h.pushed(s).redos.len() == 0,
        h.pushed(s).redone(current).1 is None,
{
}

/// Undo and redo on an empty side change nothing and hand back nothing.
pub proof fn law_empty_sides(h: History, current: SnapshotView)
    ensures
        h.undos.len() == 0 ==> h.undone(current) == (h, None::<SnapshotView>),
        h.redos.len() == 0 ==> h.redone(current) == (h, None::<SnapshotView>),
{
}

} // verus!
