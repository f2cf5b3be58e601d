use vstd::prelude::*;

use crate::date::Date;
use crate::note::Note;

verus! {

/// What a screen asks the application to do after a key press.
#[derive(Clone, Debug, PartialEq)]
pub enum Action {
    Quit,
    Noop,
    OpenTodaysEntry,
    OpenEntryPicker,
    OpenCalendar,
    OpenNote(Date),
    ShowStats,
    ShowOptions,
    BackToTitle,
    SaveNote(Note),
    ToggleSidePanel,
    StartSearch,
    StartReplace,
    BrowseByTag,
    FilterByTag(String),
    LoadTagNotes(String),
}

} // verus!
