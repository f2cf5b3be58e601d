# rusty-notes

A terminal note-taking and task-tracking application: one note per day,
task boxes (`- [ ]`, `- [x]`), search and replace, undo and redo, and a
year calendar that marks the days with notes.

`src/` is the library, verified with Verus:

- `text`, `strings` — the buffer, its lines, and the string algorithms it
  needs (splitting, joining, searching, replacing, counting words).
- `edit` — what a key press does to a buffer: typing, line breaks,
  deleting characters and words, cursor and word moves, selection, and
  copy, cut and paste.
- `undo` — the bounded undo and redo history and its laws.
- `search`, `editor_state`, `editor` — the search and replace bars and the
  editor's key handling, task toggling and task counts.
- `title_screen`, `calendar`, `date` — the title screen with its date picker
  and tag browser, the calendar, and the date arithmetic (through chrono).
- `session` — which screen is shown and the work that each action takes, in
  order: leaving the editor saves the note before quitting or switching
  screens.
- `layout`, `config`, `note`, `key`, `action` — drawing computations,
  settings, notes, key presses and actions.

`app/` is the terminal program around it: command line, settings file,
SQLite store, terminal events and drawing. `tests/` exercises the library.
