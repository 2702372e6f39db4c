//! The state kept between runs: the theme choice, the last project, the
//! unfolded apps and a status per app.
use vstd::prelude::*;
use crate::keyed::{distinct_keys, entry_map, find_key, lemma_push_entry, lemma_set_entry};
use crate::text::views;

verus! {

/// The version of the state written by this library.
pub const CURRENT_VERSION: u32 = 1;

/// The directory, under the home directory, that holds the state.
pub const STATE_DIR: &'static str = ".frost";

/// The state file, under the home directory.
pub const STATE_FILE: &'static str = ".frost/state.json";

/// What is kept of an app between runs.
#[derive(Debug)]
pub struct AppState {
    pub status: String,
}

/// The state kept between runs.
#[derive(Debug)]
pub struct FrostState {
    pub version: u32,
    pub active_theme: Option<String>,
    pub theme_mode: Option<String>,
    pub last_project: Option<String>,
    pub expanded_apps: Vec<String>,
    /// The apps' states by app id, each id once.
    pub apps: Vec<(String, AppState)>,
}

/// The app states by id, as a map.
pub open spec fn apps_map(s: &FrostState) -> Map<Seq<char>, AppState> {
    entry_map(s.apps@)
}

impl FrostState {
    /// No app id is stored twice.
    pub open spec fn wf(&self) -> bool {
        distinct_keys(self.apps@)
    }

    /// The state of a first run: the current version and nothing else.
    pub fn new() -> (s: FrostState)
        ensures
            s.wf(),
            s.version == CURRENT_VERSION,
            s.active_theme is None,
            s.theme_mode is None,
            s.last_project is None,
            s.expanded_apps@.len() == 0,
            s.apps@.len() == 0,
    {
        FrostState {
            version: CURRENT_VERSION,
            active_theme: None,
            theme_mode: None,
            last_project: None,
            expanded_apps: Vec::new(),
            apps: Vec::new(),
        }
    }

    /// Remembers the last project shown.
    pub fn set_last_project(&mut self, project: String)
        ensures
            final(self).last_project matches Some(p) && p@ == project@,
            final(self).version == old(self).version,
            final(self).active_theme == old(self).active_theme,
            final(self).theme_mode == old(self).theme_mode,
            final(self).expanded_apps == old(self).expanded_apps,
            final(self).apps == old(self).apps,
    {
        self.last_project = Some(project);
    }

    /// Remembers the unfolded apps.
    pub fn set_expanded_apps(&mut self, apps: Vec<String>)
        ensures
            views(final(self).expanded_apps@) == views(apps@),
            final(self).version == old(self).version,
            final(self).active_theme == old(self).active_theme,
            final(self).theme_mode == old(self).theme_mode,
            final(self).last_project == old(self).last_project,
            final(self).apps == old(self).apps,
    {
        self.expanded_apps = apps;
    }

    /// Stores the state of app `app_id`, replacing any stored before.
    pub fn update_app(&mut self, app_id: String, update: AppState)
        requires
            old(self).wf(),
        ensures
            final(self).wf(),
            apps_map(final(self)) == apps_map(old(self)).insert(app_id@, update),
            final(self).version == old(self).version,
            final(self).active_theme == old(self).active_theme,
            final(self).theme_mode == old(self).theme_mode,
            final(self).last_project == old(self).last_project,
            final(self).expanded_apps == old(self).expanded_apps,
    {
        match find_key(&self.apps, app_id.as_str()) {
            Some(i) => {
                let ghost s = self.apps@;
                let ghost e = (app_id, update);
                proof {
                    lemma_set_entry(s, i as int, e);
                }
                self.apps.set(i, (app_id, update));
                assert(self.apps@ == s.update(i as int, e));
            },
            None => {
                let ghost s = self.apps@;
                let ghost e = (app_id, update);
                proof {
                    lemma_push_entry(s, e);
                }
                self.apps.push((app_id, update));
            },
        }
    }
}

impl Default for FrostState {
    fn default() -> (s: FrostState)
        ensures
            s.wf(),
            s.version == CURRENT_VERSION,
            s.active_theme is None,
            s.theme_mode is None,
            s.last_project is None,
            s.expanded_apps@.len() == 0,
            s.apps@.len() == 0,
    {
        FrostState::new()
    }
}

} // verus!
