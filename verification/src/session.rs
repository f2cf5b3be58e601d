use vstd::prelude::*;

use crate::action::Action;
use crate::calendar::{calendar_accepts, calendar_step, CalendarComponent, CalendarView, CurrentlyEditing};
use crate::date::{local_now, Date, Timestamp};
use crate::editor::{editor_step, Editor, EditorView};
use crate::editor_state::EditorStateView;
use crate::key::Key;
use crate::note::{Note, NoteView};
use crate::strings::join_with;
use crate::text::{empty_text, text_of};
use crate::title_screen::{title_step, ScreenView, TitleScreenComponent, TitleView};
use crate::undo::History;

verus! {

/// Which screen the application shows.
#[derive(Clone, Copy, Debug, PartialEq, Eq, Structural)]
pub enum AppMode {
    TitleScreen,
    Editor,
    Calendar,
}

/// Work on the note store that the application must do, in order.
#[derive(Clone, Debug, PartialEq)]
pub enum Command {
    /// Store this note, replacing the note of its day; then the editor's
    /// changes count as saved.
    Upsert(Note),
    /// Fetch the note of this day, creating an empty one if there is none,
    /// and show it in the editor.
    FetchNote(Date),
    /// Count the notes and their words for the title screen.
    RefreshStats,
    /// List every tag and open the tag browser on them.
    LoadTags,
    /// Open the first note carrying this tag, if any.
    OpenFirstTagged(String),
    /// Show the notes carrying this tag in the tag browser.
    LoadTagNotes(String),
    /// End the application, once the work before it has succeeded.
    Quit,
    /// Show the title screen, once the work before it has succeeded.
    ShowTitle,
}

/// The abstract content of a command.
pub enum CommandView {
    Upsert(NoteView),
    FetchNote(Date),
    RefreshStats,
    LoadTags,
    OpenFirstTagged(Seq<char>),
    LoadTagNotes(Seq<char>),
    Quit,
    ShowTitle,
}

impl View for Command {
    type V = CommandView;

    open spec fn view(&self) -> CommandView {
        match self {
            Command::Upsert(n) => CommandView::Upsert(n@),
            Command::FetchNote(d) => CommandView::FetchNote(*d),
            Command::RefreshStats => CommandView::RefreshStats,
            Command::LoadTags => CommandView::LoadTags,
            Command::OpenFirstTagged(t) => CommandView::OpenFirstTagged(t@),
            Command::LoadTagNotes(t) => CommandView::LoadTagNotes(t@),
            Command::Quit => CommandView::Quit,
            Command::ShowTitle => CommandView::ShowTitle,
        }
    }
}

/// The state of the application's screens: which one is shown, the three
/// screens, whether the application is to end, and whether newly opened
/// notes show the side panel.
pub struct Session {
    pub mode: AppMode,
    pub editor: Editor,
    pub title_screen: TitleScreenComponent,
    pub calendar: CalendarComponent,
    pub should_quit: bool,
    pub side_panel_default: bool,
}

/// The abstract state of the application's screens.
pub struct SessionView {
    pub mode: AppMode,
    pub editor: EditorView,
    pub title: TitleView,
    pub calendar: CalendarView,
    pub should_quit: bool,
    pub side_panel_default: bool,
}

impl View for Session {
    type V = SessionView;

    open spec fn view(&self) -> SessionView {
        SessionView {
            mode: self.mode,
            editor: self.editor@,
            title: self.title_screen@,
            calendar: self.calendar@,
            should_quit: self.should_quit,
            side_panel_default: self.side_panel_default,
        }
    }
}

/// The note that saving the editor at the moment `now` stores: the buffer's
/// text for the editor's day.
pub open spec fn editor_note(e: EditorView, now: Timestamp) -> NoteView {
    NoteView {
        id: 0,
        text: join_with(e.text.lines, '\n'),
        creation_date: e.creation_date,
        last_edited: now,
    }
}

/// What leaving the editor stores: its note, when the editor is shown and
/// has unsaved changes.
pub open spec fn save_commands(v: SessionView, now: Timestamp) -> Seq<CommandView> {
    if v.mode == AppMode::Editor && v.editor.write {
        seq![CommandView::Upsert(editor_note(v.editor, now))]
    } else {
        Seq::empty()
    }
}

/// What opening the note of `date` takes: saving the editor first, then
/// fetching the note.
pub open spec fn open_commands(v: SessionView, date: Date, now: Timestamp) -> Seq<CommandView> {
    save_commands(v, now).push(CommandView::FetchNote(date))
}

/// The screens after an action on the day `today` at the moment `now`, and
/// the work it takes, in order. Quitting and going back to the title screen
/// come as the last command, so that they happen only once the editor's
/// note has been stored.
pub open spec fn plan(v: SessionView, action: Action, today: Date, now: Timestamp) -> (SessionView, Seq<CommandView>) {
    match action {
        Action::Quit => (v, save_commands(v, now).push(CommandView::Quit)),
        Action::OpenTodaysEntry => (v, open_commands(v, today, now)),
        Action::OpenCalendar => (SessionView { mode: AppMode::Calendar, ..v }, Seq::empty()),
        Action::OpenNote(d) => (v, open_commands(v, d, now)),
        Action::ShowStats => (v, seq![CommandView::RefreshStats]),
        Action::BackToTitle => (v, save_commands(v, now).push(CommandView::ShowTitle)),
        Action::SaveNote(n) => (v, seq![CommandView::Upsert(n@)]),
        Action::ToggleSidePanel => (
            SessionView { editor: EditorView { side_panel: !v.editor.side_panel, ..v.editor }, ..v },
            Seq::empty(),
        ),
        Action::BrowseByTag => (v, seq![CommandView::LoadTags]),
        Action::FilterByTag(t) => (v, seq![CommandView::OpenFirstTagged(t@)]),
        Action::LoadTagNotes(t) => (v, seq![CommandView::LoadTagNotes(t@)]),
        _ => (v, Seq::empty()),
    }
}

/// Whether the shown screen can take `key`.
pub open spec fn session_accepts(v: SessionView, key: Key) -> bool {
    v.mode == AppMode::Calendar ==> calendar_accepts(v.calendar, key.code)
}

/// The screens after a key press on the day `today`, and the action the
/// shown screen asks for.
pub open spec fn key_step(v: SessionView, key: Key, today: Date) -> (SessionView, Action) {
    match v.mode {
        AppMode::TitleScreen => {
            let (t, a) = title_step(v.title, key.code, today);
            (SessionView { title: t, ..v }, a)
        },
        AppMode::Editor => {
            let (e, a) = editor_step(v.editor, key);
            (SessionView { editor: e, ..v }, a)
        },
        AppMode::Calendar => {
            let (c, a) = calendar_step(v.calendar, key.code);
            (SessionView { calendar: c, ..v }, a)
        },
    }
}

/// Whether the editor's unsaved changes are due for saving: the editor is
/// shown, has changes, and at least `period` seconds passed since the last
/// save.
pub open spec fn auto_save_due(v: SessionView, elapsed_secs: u64, period: u64) -> bool {
    v.mode == AppMode::Editor && v.editor.write && elapsed_secs >= period
}

/// Leaving the editor with unsaved changes, by quitting, by going back to
/// the title screen or by opening a note, first stores the editor's note;
/// the screens stay as they are until the last command, which quits, shows
/// the title screen or fetches the note to open.
pub proof fn law_leaving_editor_saves(v: SessionView, action: Action, today: Date, now: Timestamp)
    requires
        v.mode == AppMode::Editor,
        v.editor.write,
        action is Quit || action is BackToTitle || action is OpenTodaysEntry || action is OpenNote,
    ensures
        ({
            let (w, cmds) = plan(v, action, today, now);
            &&& w == v
            &&& cmds.len() == 2
            &&& cmds[0] == CommandView::Upsert(editor_note(v.editor, now))
            &&& action is Quit ==> cmds[1] == CommandView::Quit
            &&& action is BackToTitle ==> cmds[1] == CommandView::ShowTitle
            &&& action matches Action::OpenNote(d) ==> cmds[1] == CommandView::FetchNote(d)
            &&& action is OpenTodaysEntry ==> cmds[1] == CommandView::FetchNote(today)
        }),
{
}

/// Opening the calendar shows it; toggling the side panel flips it in the
/// editor; the statistics, the tag list and a tag's notes are fetched from
/// the store, and saving a given note stores exactly it; none of these
/// touches anything else, and the actions that ask for nothing change
/// nothing.
pub proof fn law_plain_actions(v: SessionView, action: Action, today: Date, now: Timestamp)
    requires
        !(action is Quit || action is BackToTitle || action is OpenTodaysEntry || action is OpenNote),
    ensures
        ({
            let (w, cmds) = plan(v, action, today, now);
            &&& action is OpenCalendar ==> w == SessionView { mode: AppMode::Calendar, ..v } && cmds.len() == 0
            &&& action is ToggleSidePanel ==> w == SessionView {
                editor: EditorView { side_panel: !v.editor.side_panel, ..v.editor },
                ..v
            } && cmds.len() == 0
            &&& action is ShowStats ==> w == v && cmds == seq![CommandView::RefreshStats]
            &&& action is BrowseByTag ==> w == v && cmds == seq![CommandView::LoadTags]
            &&& action matches Action::FilterByTag(t) ==> w == v && cmds == seq![CommandView::OpenFirstTagged(t@)]
            &&& action matches Action::LoadTagNotes(t) ==> w == v && cmds == seq![CommandView::LoadTagNotes(t@)]
            &&& action matches Action::SaveNote(n) ==> w == v && cmds == seq![CommandView::Upsert(n@)]
            &&& (action is Noop || action is OpenEntryPicker || action is ShowOptions || action is StartSearch
                || action is StartReplace) ==> w == v && cmds.len() == 0
        }),
{
}

/// Quitting or going back to the title screen with nothing unsaved stores
/// nothing.
pub proof fn law_leaving_unchanged_editor(v: SessionView, action: Action, today: Date, now: Timestamp)
    requires
        !(v.mode == AppMode::Editor && v.editor.write),
        action is Quit || action is BackToTitle,
    ensures
        plan(v, action, today, now).0 == v,
        plan(v, action, today, now).1 == seq![
            if action is Quit { CommandView::Quit } else { CommandView::ShowTitle },
        ],
{
    assert(plan(v, action, today, now).1 =~= seq![
        if action is Quit { CommandView::Quit } else { CommandView::ShowTitle },
    ]);
}

impl Session {
    /// The screens are in a state that key presses may reach.
    pub open spec fn wf(&self) -> bool {
        &&& self.editor.wf()
        &&& self@.title.state.wf()
        &&& self@.calendar.date.wf()
    }

    /// The title screen with the given statistics, an empty editor that
    /// shows the side panel as configured, and the calendar on today.
    pub fn new(side_panel_default: bool, note_count: usize, word_count: usize) -> (s: Session)
        ensures
            s.wf(),
            s@.mode == AppMode::TitleScreen,
            s@.title == (TitleView { state: ScreenView::Options, note_count, word_count, show_help: false }),
            s@.editor.creation_date.wf(),
            s@.editor == (EditorView {
                state: EditorStateView::Edit,
                text: empty_text(),
                creation_date: s@.editor.creation_date,
                last_edited: s@.editor.last_edited,
                scroll_offset: (0, 0),
                screen_size: (0, 0),
                write: false,
                side_panel: side_panel_default,
                show_help: false,
                history: History { undos: Seq::empty(), redos: Seq::empty() },
            }),
            s@.calendar.date.wf(),
            s@.calendar == (CalendarView {
                date: s@.calendar.date,
                editing: CurrentlyEditing::Month,
                open: false,
                show_help: false,
            }),
            !s@.should_quit,
            s@.side_panel_default == side_panel_default,
    {
        let mut title_screen = TitleScreenComponent::new();
        title_screen.update_stats(note_count, word_count);
        let mut editor = Editor::new();
        editor.set_side_panel(side_panel_default);
        Session {
            mode: AppMode::TitleScreen,
            editor,
            title_screen,
            calendar: CalendarComponent::new(),
            should_quit: false,
            side_panel_default,
        }
    }

    /// The note that saving the editor at the moment `now` stores.
    pub fn editor_note(&self, now: Timestamp) -> (n: Note)
        ensures
            n@ == editor_note(self@.editor, now),
    {
        self.editor.note_at(now)
    }

    fn save_commands(&self, now: Timestamp) -> (cmds: Vec<Command>)
        ensures
            cmds@.map_values(|c: Command| c@) == save_commands(self@, now),
    {
        let mut cmds: Vec<Command> = Vec::new();
        if self.mode == AppMode::Editor && self.editor.has_changes() {
            cmds.push(Command::Upsert(self.editor_note(now)));
        }
        assert(cmds@.map_values(|c: Command| c@) =~= save_commands(self@, now));
        cmds
    }

    fn open_commands(&self, date: Date, now: Timestamp) -> (cmds: Vec<Command>)
        ensures
            cmds@.map_values(|c: Command| c@) == open_commands(self@, date, now),
    {
        let mut cmds = self.save_commands(now);
        cmds.push(Command::FetchNote(date));
        assert(cmds@.map_values(|c: Command| c@) =~= open_commands(self@, date, now));
        cmds
    }

    /// Carries out `action` on the screens, on the day `today` at the moment
    /// `now`, and lists the work on the note store that it takes.
    pub fn process_action_at(&mut self, action: Action, today: Date, now: Timestamp) -> (cmds: Vec<Command>)
        requires
            old(self).wf(),
        ensures
            final(self).wf(),
            final(self)@ == plan(old(self)@, action, today, now).0,
            cmds@.map_values(|c: Command| c@) == plan(old(self)@, action, today, now).1,
    {
        let empty: Vec<Command> = Vec::new();
        assert(empty@.map_values(|c: Command| c@) =~= Seq::<CommandView>::empty());
        match action {
            Action::Quit => {
                let mut cmds = self.save_commands(now);
                cmds.push(Command::Quit);
                assert(cmds@.map_values(|c: Command| c@) =~= save_commands(self@, now).push(CommandView::Quit));
                cmds
            },
            Action::OpenTodaysEntry => self.open_commands(today, now),
            Action::OpenCalendar => {
                self.mode = AppMode::Calendar;
                empty
            },
            Action::OpenNote(d) => self.open_commands(d, now),
            Action::ShowStats => {
                let mut cmds = empty;
                cmds.push(Command::RefreshStats);
                assert(cmds@.map_values(|c: Command| c@) =~= seq![CommandView::RefreshStats]);
                cmds
            },
            Action::BackToTitle => {
                let mut cmds = self.save_commands(now);
                cmds.push(Command::ShowTitle);
                assert(cmds@.map_values(|c: Command| c@) =~= save_commands(self@, now).push(CommandView::ShowTitle));
                cmds
            },
            Action::SaveNote(n) => {
                let ghost nv = n@;
                let mut cmds = empty;
                cmds.push(Command::Upsert(n));
                assert(cmds@.map_values(|c: Command| c@) =~= seq![CommandView::Upsert(nv)]);
                cmds
            },
            Action::ToggleSidePanel => {
                let on = !self.editor.side_panel_shown();
                self.editor.set_side_panel(on);
                empty
            },
            Action::BrowseByTag => {
                let mut cmds = empty;
                cmds.push(Command::LoadTags);
                assert(cmds@.map_values(|c: Command| c@) =~= seq![CommandView::LoadTags]);
                cmds
            },
            Action::FilterByTag(t) => {
                let ghost tv = t@;
                let mut cmds = empty;
                cmds.push(Command::OpenFirstTagged(t));
                assert(cmds@.map_values(|c: Command| c@) =~= seq![CommandView::OpenFirstTagged(tv)]);
                cmds
            },
            Action::LoadTagNotes(t) => {
                let ghost tv = t@;
                let mut cmds = empty;
                cmds.push(Command::LoadTagNotes(t));
                assert(cmds@.map_values(|c: Command| c@) =~= seq![CommandView::LoadTagNotes(tv)]);
                cmds
            },
            _ => empty,
        }
    }

    /// Carries out `action` now, and lists the work on the note store that
    /// it takes.
    pub fn process_action(&mut self, action: Action) -> (cmds: Vec<Command>)
        requires
            old(self).wf(),
        ensures
            final(self).wf(),
            exists|today: Date, now: Timestamp|
                today.wf() && final(self)@ == plan(old(self)@, action, today, now).0 && cmds@.map_values(
                    |c: Command| c@,
                ) == plan(old(self)@, action, today, now).1,
    {
        let (today, now) = local_now();
        self.process_action_at(action, today, now)
    }

    /// What opening the note of `date` at the moment `now` takes: saving
    /// the editor first, then fetching the note.
    pub fn open_note_commands(&self, date: Date, now: Timestamp) -> (cmds: Vec<Command>)
        ensures
            cmds@.map_values(|c: Command| c@) == open_commands(self@, date, now),
    {
        self.open_commands(date, now)
    }

    /// Shows `note` in a fresh editor, with the side panel as configured.
    pub fn show_note(&mut self, note: Note)
        requires
            old(self).wf(),
        ensures
            final(self).wf(),
            final(self)@ == (SessionView {
                mode: AppMode::Editor,
                editor: EditorView {
                    state: EditorStateView::Edit,
                    text: text_of(note.text@),
                    creation_date: note.creation_date,
                    last_edited: note.last_edited,
                    scroll_offset: (0, 0),
                    screen_size: (0, 0),
                    write: false,
                    side_panel: old(self)@.side_panel_default,
                    show_help: false,
                    history: History { undos: Seq::empty(), redos: Seq::empty() },
                },
                ..old(self)@
            }),
    {
        let mut editor = Editor::from_note(note);
        editor.set_side_panel(self.side_panel_default);
        self.editor = editor;
        self.mode = AppMode::Editor;
    }

    /// The editor's changes count as saved.
    pub fn mark_saved(&mut self)
        requires
            old(self).wf(),
        ensures
            final(self).wf(),
            final(self)@ == (SessionView {
                editor: EditorView { write: false, ..old(self)@.editor },
                ..old(self)@
            }),
    {
        self.editor.set_write(false);
    }

    /// The application is to end.
    pub fn quit(&mut self)
        requires
            old(self).wf(),
        ensures
            final(self).wf(),
            final(self)@ == (SessionView { should_quit: true, ..old(self)@ }),
    {
        self.should_quit = true;
    }

    /// The title screen is shown.
    pub fn show_title(&mut self)
        requires
            old(self).wf(),
        ensures
            final(self).wf(),
            final(self)@ == (SessionView { mode: AppMode::TitleScreen, ..old(self)@ }),
    {
        self.mode = AppMode::TitleScreen;
    }

    /// Whether the shown screen can take `key`.
    pub fn accepts(&self, key: &Key) -> (b: bool)
        requires
            self.wf(),
        ensures
            b == session_accepts(self@, *key),
    {
        match self.mode {
            AppMode::Calendar => self.calendar.accepts(key),
            _ => true,
        }
    }

    /// Hands a key press, on the day `today`, to the shown screen.
    pub fn handle_key_at(&mut self, key: Key, today: &Date) -> (a: Action)
        requires
            old(self).wf(),
            session_accepts(old(self)@, key),
            today.wf(),
        ensures
            final(self).wf(),
            (final(self)@, a) == key_step(old(self)@, key, *today),
    {
        match self.mode {
            AppMode::TitleScreen => self.title_screen.handle_event_on(key, today),
            AppMode::Editor => self.editor.handle_event(key),
            AppMode::Calendar => self.calendar.handle_event(key),
        }
    }

    /// Hands a key press to the shown screen.
    pub fn handle_key_event(&mut self, key: Key) -> (a: Action)
        requires
            old(self).wf(),
            session_accepts(old(self)@, key),
        ensures
            final(self).wf(),
            exists|t: Date| t.wf() && (final(self)@, a) == key_step(old(self)@, key, t),
    {
        let (today, _) = local_now();
        self.handle_key_at(key, &today)
    }

    /// Whether the editor's unsaved changes are due for saving, `period`
    /// seconds being the saving interval.
    pub fn auto_save_due(&self, elapsed_secs: u64, period: u64) -> (b: bool)
        ensures
            b == auto_save_due(self@, elapsed_secs, period),
    {
        self.mode == AppMode::Editor && self.editor.has_changes() && elapsed_secs >= period
    }
}

} // verus!
