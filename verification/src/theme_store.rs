//! The active theme and mode, an optional mode lock, and the resolved
//! colours of the active theme, kept until the choice changes.
//!
//! Each change answers whether listeners should be told and whether the
//! choice should be written to the persist file; the shell does both.
use vstd::prelude::*;
use crate::text::text_eq;
use crate::theme::{resolve_theme_safe, theme_colors_match, theme_error, ResolvedTheme, ThemeJson, ThemeMode};
use crate::theme_registry::{theme_for, ThemeRegistry};

verus! {

/// The id of the theme chosen when nothing else is.
pub open spec fn default_theme_id() -> Seq<char> {
    "opencode"@
}

/// The theme choice as written to the persist file.
#[derive(Debug)]
pub struct PersistedThemeState {
    pub active: String,
    pub mode: Option<ThemeMode>,
    pub lock: Option<ThemeMode>,
}

/// What a change asks of the shell.
#[derive(Debug, Clone, Copy, PartialEq, Eq, Structural)]
pub struct Changed {
    /// Tell the listeners that the theme changed.
    pub notify: bool,
    /// Write [`ThemeStore::persisted_state`] to the persist file, if any.
    pub persist: bool,
}

/// No change.
pub open spec fn unchanged() -> Changed {
    Changed { notify: false, persist: false }
}

/// The store as plain values.
pub struct StoreView {
    pub registry: (Map<Seq<char>, ThemeJson>, Option<ThemeJson>),
    pub active: Seq<char>,
    pub mode: ThemeMode,
    pub lock: Option<ThemeMode>,
    pub persist_path: Option<Seq<char>>,
}

/// The theme choice: the registry, the active theme and mode, the lock,
/// and the resolved colours of themes already resolved.
#[derive(Debug)]
pub struct ThemeStore {
    registry: ThemeRegistry,
    active: String,
    mode: ThemeMode,
    lock: Option<ThemeMode>,
    resolved_cache: Vec<(String, ThemeMode, ResolvedTheme)>,
    persist_path: Option<String>,
}

impl View for ThemeStore {
    type V = StoreView;

    closed spec fn view(&self) -> StoreView {
        StoreView {
            registry: self.registry@,
            active: self.active@,
            mode: self.mode,
            lock: self.lock,
            persist_path: match self.persist_path {
                Some(p) => Some(p@),
                None => None,
            },
        }
    }
}

/// Whether `t` is what theme `tj` resolves to in `mode`: it resolves, and
/// every colour of `t` is its token's.
#[verifier::opaque]
pub open spec fn resolved_as(t: ResolvedTheme, tj: ThemeJson, mode: ThemeMode) -> bool {
    theme_error(tj, mode) is None && theme_colors_match(t, tj, mode)
}

/// Whether a resolved theme is what the theme `id` names resolves to in
/// `mode`.
pub open spec fn resolves_to(reg: (Map<Seq<char>, ThemeJson>, Option<ThemeJson>), id: Seq<char>, mode: ThemeMode, t: ResolvedTheme) -> bool {
    theme_for(reg, id) matches Some(tj) && resolved_as(t, tj, mode)
}

/// A store after taking over a persisted choice: the persisted theme when
/// the registry has it, the persisted lock (which sets the mode too), else
/// the persisted mode.
pub open spec fn with_persisted(v: StoreView, active: Seq<char>, mode: Option<ThemeMode>, lock: Option<ThemeMode>) -> StoreView {
    StoreView {
        active: if theme_for(v.registry, active) is Some { active } else { v.active },
        mode: match lock {
            Some(m) => m,
            None => match mode {
                Some(m) => m,
                None => v.mode,
            },
        },
        lock: match lock {
            Some(m) => Some(m),
            None => v.lock,
        },
        ..v
    }
}

/// What a store writes to its persist file, read back into a store over
/// a registry that knows the theme, restores the theme and the lock, and
/// a lock brings its mode back with it.
pub proof fn law_persist_round_trip(s: StoreView, t: StoreView)
    requires
        theme_for(t.registry, s.active) is Some,
    ensures
        ({
            let back = with_persisted(t, s.active, if s.lock is Some { Some(s.mode) } else { None }, s.lock);
            &&& back.active == s.active
            &&& s.lock matches Some(m) ==> back.lock == s.lock && back.mode == m
            &&& s.lock is None ==> back.lock == t.lock && back.mode == t.mode
        }),
{
}

impl ThemeStore {
    /// The registry is well formed and every kept resolution is what its
    /// theme resolves to.
    pub closed spec fn wf(&self) -> bool {
        &&& self.registry.wf()
        &&& forall|i: int| 0 <= i < self.resolved_cache@.len() ==> resolves_to(
            self.registry@,
            (#[trigger] self.resolved_cache@[i]).0@,
            self.resolved_cache@[i].1,
            self.resolved_cache@[i].2,
        )
    }

    /// A store over a registry: the default theme, dark mode, no lock, no
    /// persist file.
    pub fn new(registry: ThemeRegistry) -> (s: ThemeStore)
        requires
            registry.wf(),
        ensures
            s.wf(),
            s@ == (StoreView {
                registry: registry@,
                active: default_theme_id(),
                mode: ThemeMode::Dark,
                lock: None,
                persist_path: None,
            }),
    {
        let s = ThemeStore {
            registry,
            active: "opencode".to_string(),
            mode: ThemeMode::Dark,
            lock: None,
            resolved_cache: Vec::new(),
            persist_path: None,
        };
        proof {
            reveal_strlit("opencode");
        }
        s
    }

    /// The same store, persisting to `path`.
    pub fn with_persist_path(self, path: String) -> (s: ThemeStore)
        requires
            self.wf(),
        ensures
            s.wf(),
            s@ == (StoreView { persist_path: Some(path@), ..self@ }),
    {
        let mut s = self;
        s.persist_path = Some(path);
        s
    }

    /// The persist file, if any.
    pub fn persist_path(&self) -> (r: Option<String>)
        ensures
            match self@.persist_path {
                Some(p) => r matches Some(q) && q@ == p,
                None => r is None,
            },
    {
        match &self.persist_path {
            Some(p) => Some(p.clone()),
            None => None,
        }
    }

    /// Takes over a persisted choice: its theme when the registry has it,
    /// its lock (which also sets the mode), else its mode.
    pub fn apply_persisted(&mut self, state: PersistedThemeState)
        requires
            old(self).wf(),
        ensures
            final(self).wf(),
            final(self)@ == with_persisted(old(self)@, state.active@, state.mode, state.lock),
    {
        if self.registry.has(state.active.as_str()) {
            self.active = state.active;
        }
        match state.lock {
            Some(m) => {
                self.lock = Some(m);
                self.mode = m;
            },
            None => match state.mode {
                Some(m) => {
                    self.mode = m;
                },
                None => {},
            },
        }
    }

    /// The active theme's id.
    pub fn get_active(&self) -> (r: &str)
        ensures
            r@ == self@.active,
    {
        self.active.as_str()
    }

    /// Switches to theme `id` when the registry has it and it is not
    /// already active; a switch is announced and persisted.
    pub fn set(&mut self, id: &str) -> (c: Changed)
        requires
            old(self).wf(),
        ensures
            final(self).wf(),
            if theme_for(old(self)@.registry, id@) is Some && old(self)@.active != id@ {
                final(self)@ == (StoreView { active: id@, ..old(self)@ }) && c == (Changed { notify: true, persist: true })
            } else {
                final(self)@ == old(self)@ && c == unchanged()
            },
    {
        if !self.registry.has(id) {
            return Changed { notify: false, persist: false };
        }
        if text_eq(self.active.as_str(), id) {
            return Changed { notify: false, persist: false };
        }
        self.active = id.to_string();
        self.resolved_cache = Vec::new();
        Changed { notify: true, persist: true }
    }

    /// The current mode.
    pub fn get_mode(&self) -> (m: ThemeMode)
        ensures
            m == self@.mode,
    {
        self.mode
    }

    /// Changes the mode; a change is announced, and persisted while the
    /// mode is locked.
    pub fn set_mode(&mut self, mode: ThemeMode) -> (c: Changed)
        requires
            old(self).wf(),
        ensures
            final(self).wf(),
            if old(self)@.mode != mode {
                final(self)@ == (StoreView { mode, ..old(self)@ })
                    && c == (Changed { notify: true, persist: old(self)@.lock is Some })
            } else {
                final(self)@ == old(self)@ && c == unchanged()
            },
    {
        if self.mode == mode {
            return Changed { notify: false, persist: false };
        }
        self.mode = mode;
        self.resolved_cache = Vec::new();
        Changed { notify: true, persist: self.lock.is_some() }
    }

    /// The mode lock, if any.
    pub fn get_lock(&self) -> (l: Option<ThemeMode>)
        ensures
            l == self@.lock,
    {
        self.lock
    }

    /// Locks the mode to `mode` (and switches to it); announced and
    /// persisted.
    pub fn lock_mode(&mut self, mode: ThemeMode) -> (c: Changed)
        requires
            old(self).wf(),
        ensures
            final(self).wf(),
            final(self)@ == (StoreView { mode, lock: Some(mode), ..old(self)@ }),
            c == (Changed { notify: true, persist: true }),
    {
        self.lock = Some(mode);
        self.mode = mode;
        self.resolved_cache = Vec::new();
        Changed { notify: true, persist: true }
    }

    /// Lifts the mode lock; a lift is announced and persisted.
    pub fn unlock(&mut self) -> (c: Changed)
        requires
            old(self).wf(),
        ensures
            final(self).wf(),
            final(self)@ == (StoreView { lock: None, ..old(self)@ }),
            c == if old(self)@.lock is Some { Changed { notify: true, persist: true } } else { unchanged() },
    {
        if self.lock.is_none() {
            return Changed { notify: false, persist: false };
        }
        self.lock = None;
        Changed { notify: true, persist: true }
    }

    /// The stored themes.
    pub fn get_all(&self) -> (r: &Vec<(String, ThemeJson)>)
        requires
            self.wf(),
        ensures
            crate::theme_registry::theme_map(r@) == self@.registry.0,
    {
        self.registry.get_all()
    }

    /// The theme an id names.
    pub fn get_theme(&self, id: &str) -> (r: Option<&ThemeJson>)
        requires
            self.wf(),
        ensures
            match theme_for(self@.registry, id@) {
                Some(t) => r matches Some(x) && *x == t,
                None => r is None,
            },
    {
        self.registry.get(id)
    }

    /// The choice as written to the persist file: the active theme, and the
    /// mode and lock while the mode is locked.
    pub fn persisted_state(&self) -> (p: PersistedThemeState)
        ensures
            p.active@ == self@.active,
            p.lock == self@.lock,
            p.mode == if self@.lock is Some { Some(self@.mode) } else { None },
    {
        PersistedThemeState {
            active: self.active.clone(),
            mode: if self.lock.is_some() { Some(self.mode) } else { None },
            lock: self.lock,
        }
    }

    /// Whether kept resolution `j` is of the active theme in the current
    /// mode.
    closed spec fn is_current(&self, j: int) -> bool {
        self.resolved_cache@[j].0@ == self.active@ && self.resolved_cache@[j].1 == self.mode
    }

    /// The index of the first kept resolution of the active theme in the
    /// current mode; `None` when none is kept.
    fn cached(&self) -> (r: Option<usize>)
        requires
            self.wf(),
        ensures
            match r {
                Some(i) => i < self.resolved_cache@.len() && self.is_current(i as int)
                    && forall|j: int| 0 <= j < i ==> !#[trigger] self.is_current(j),
                None => forall|j: int| 0 <= j < self.resolved_cache@.len() ==> !#[trigger] self.is_current(j),
            },
    {
        let mut i: usize = 0;
        let n = self.resolved_cache.len();
        while i < n
            invariant
                n == self.resolved_cache@.len(),
                i <= n,
                forall|j: int| 0 <= j < i ==> !#[trigger] self.is_current(j),
            decreases n - i,
        {
            if self.resolved_cache[i].1 == self.mode && text_eq(self.resolved_cache[i].0.as_str(), self.active.as_str()) {
                return Some(i);
            }
            i = i + 1;
        }
        None
    }

    /// The active theme resolved for the current mode, kept for later
    /// calls; `None` when the active theme is unknown or does not resolve.
    pub fn get_resolved(&mut self) -> (r: Option<&ResolvedTheme>)
        requires
            old(self).wf(),
        ensures
            final(self).wf(),
            final(self)@ == old(self)@,
            match theme_for(old(self)@.registry, old(self)@.active) {
                Some(tj) => match theme_error(tj, old(self)@.mode) {
                    Some(_) => r is None,
                    None => r matches Some(t) && resolved_as(*t, tj, old(self)@.mode),
                },
                None => r is None,
            },
    {
        let i = match self.cached() {
            Some(i) => i,
            None => {
                let resolved = match self.registry.get(self.active.as_str()) {
                    Some(theme) => match resolve_theme_safe(theme, self.mode) {
                        Some(t) => {
                            proof {
                                reveal(resolved_as);
                            }
                            t
                        },
                        None => return None,
                    },
                    None => return None,
                };
                self.resolved_cache.push((self.active.clone(), self.mode, resolved));
                self.resolved_cache.len() - 1
            },
        };
        proof {
            let e = self.resolved_cache@[i as int];
            assert(resolves_to(self.registry@, e.0@, e.1, e.2));
            reveal(resolved_as);
        }
        Some(&self.resolved_cache[i].2)
    }
}

} // verus!
