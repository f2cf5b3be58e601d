use vstd::prelude::*;

use crate::search::{Replace, ReplaceStage, Search};
use crate::text::TextView;

verus! {

/// What the editor is doing: editing the note, leaving it, or typing into
/// the search or the replace bar.
#[derive(Clone, Debug, PartialEq)]
pub enum EditorState {
    Edit,
    Exit,
    Search(Search),
    Replace(Replace),
}

/// The abstract state of what the editor is doing.
pub enum EditorStateView {
    Edit,
    Exit,
    Search(TextView),
    Replace(TextView, ReplaceStage),
}

impl View for EditorState {
    type V = EditorStateView;

    open spec fn view(&self) -> EditorStateView {
        match self {
            EditorState::Edit => EditorStateView::Edit,
            EditorState::Exit => EditorStateView::Exit,
            EditorState::Search(s) => EditorStateView::Search(s.text@),
            EditorState::Replace(r) => EditorStateView::Replace(r.text@, r.stage),
        }
    }
}

} // verus!
