use vstd::prelude::*;

verus! {

/// The settings file's content: where the notes are stored, whether notes
/// open with the side panel, and how often unsaved changes are saved.
#[derive(Clone, Debug, PartialEq)]
pub struct Config {
    pub database_path: Option<String>,
    pub side_panel_default: bool,
    pub auto_save_seconds: u64,
}

/// Where the note store lives.
#[derive(Clone, Debug, PartialEq)]
pub enum DbPath {
    /// At the path the settings name.
    Configured(String),
    /// In the application's data directory, under this file name.
    InDataDir(String),
}

impl Default for Config {
    fn default() -> (c: Self)
        ensures
            c.database_path is None,
            c.side_panel_default,
            c.auto_save_seconds == 30,
    {
        Config { database_path: None, side_panel_default: true, auto_save_seconds: 30 }
    }
}

impl Config {
    /// Where the note store lives: the configured path, or `notes.db` in
    /// the data directory when none is configured.
    pub fn db_path(&self) -> (p: DbPath)
        ensures
            match self.database_path {
                Some(path) => p matches DbPath::Configured(q) && q@ == path@,
                None => p matches DbPath::InDataDir(name) && name@ == "notes.db"@,
            },
    {
        match &self.database_path {
            Some(path) => DbPath::Configured(path.clone()),
            None => DbPath::InDataDir(String::from_str("notes.db")),
        }
    }
}

} // verus!
