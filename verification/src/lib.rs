//! A note-taking and task-tracking library: the text buffer, its undo
//! history, search and replace, the editor and screen state machines, and
//! the calendar arithmetic that the terminal front end drives.

pub mod action;
pub mod calendar;
pub mod config;
pub mod date;
pub mod edit;
pub mod editor;
pub mod editor_state;
pub mod key;
pub mod layout;
pub mod note;
pub mod strings;
pub mod text;
pub mod title_screen;
pub mod undo;
pub mod search;
pub mod session;
