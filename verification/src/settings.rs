//! User-facing options: how searches are interpreted and where persisted
//! state is kept.

use vstd::prelude::*;

verus! {

/// How a search query is interpreted: a shell-style glob, a regular
/// expression, or a plain substring test.
#[derive(Clone, Copy, Debug, PartialEq, Eq, Structural)]
pub enum SearchMode {
    Glob,
    Regex,
    Contains,
}

/// Options of the search engine: the query mode, case sensitivity, whether
/// candidates are drawn from the whole index rather than the current
/// directory, and whether a match must cover the exact trailing name.
#[derive(Clone, Copy, Debug, PartialEq, Eq, Structural)]
pub struct SearchSettings {
    pub mode: SearchMode,
    pub sensitive: bool,
    pub recursive: bool,
    pub strict: bool,
}

impl SearchSettings {
    pub open spec fn is_default(self) -> bool {
        self.mode == SearchMode::Glob && !self.sensitive && !self.recursive && !self.strict
    }
}

impl Default for SearchSettings {
    fn default() -> (d: SearchSettings)
        ensures
            d.is_default(),
    {
        SearchSettings { mode: SearchMode::Glob, sensitive: false, recursive: false, strict: false }
    }
}

/// Where persisted state is written and read. The location is supplied by the
/// caller; an empty location means none has been chosen yet.
#[derive(Clone, Debug)]
pub struct SaveLoadSettings {
    pub location_input: String,
    pub location_is_valid: bool,
    pub location: String,
}

impl SaveLoadSettings {
    pub open spec fn is_default(self) -> bool {
        self.location_input@.len() == 0 && self.location_is_valid && self.location@.len() == 0
    }
}

impl Default for SaveLoadSettings {
    fn default() -> (d: SaveLoadSettings)
        ensures
            d.is_default(),
    {
        SaveLoadSettings {
            location_input: String::new(),
            location_is_valid: true,
            location: String::new(),
        }
    }
}

/// All options together.
#[derive(Clone, Debug)]
pub struct Settings {
    pub search: SearchSettings,
    pub save_load: SaveLoadSettings,
    pub show_francis: bool,
}

impl Settings {
    pub open spec fn is_default(self) -> bool {
        self.search.is_default() && self.save_load.is_default() && self.show_francis
    }
}

impl Default for Settings {
    fn default() -> (d: Settings)
        ensures
            d.is_default(),
    {
        Settings {
            search: SearchSettings::default(),
            save_load: SaveLoadSettings::default(),
            show_francis: true,
        }
    }
}

} // verus!
