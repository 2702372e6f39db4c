//! The themes known by id, and the one generated from the terminal's own
//! palette, which is known as `system`.
use vstd::prelude::*;
use crate::keyed::{
    distinct_keys, entry_map, find_key, has_key, keys_of, lemma_lookup_first, lemma_push_entry, lemma_remove_entry,
    lemma_set_entry,
};
use crate::order::{sort_keys, sorted_strings};
use crate::text::{text_eq, views};
use crate::theme::ThemeJson;

verus! {

/// The id the generated system theme is known by.
pub open spec fn system_id() -> Seq<char> {
    "system"@
}

/// The map a list of `(id, theme)` entries stands for.
pub open spec fn theme_map(s: Seq<(String, ThemeJson)>) -> Map<Seq<char>, ThemeJson> {
    entry_map(s)
}

/// The themes by id, and the system theme when there is one.
#[derive(Debug)]
pub struct ThemeRegistry {
    themes: Vec<(String, ThemeJson)>,
    system_theme: Option<ThemeJson>,
}

impl View for ThemeRegistry {
    type V = (Map<Seq<char>, ThemeJson>, Option<ThemeJson>);

    closed spec fn view(&self) -> (Map<Seq<char>, ThemeJson>, Option<ThemeJson>) {
        (theme_map(self.themes@), self.system_theme)
    }
}

/// The theme an id names in a registry: `system` names the system theme,
/// any other id the theme stored under it.
pub open spec fn theme_for(r: (Map<Seq<char>, ThemeJson>, Option<ThemeJson>), id: Seq<char>) -> Option<ThemeJson> {
    if id == system_id() {
        r.1
    } else if r.0.contains_key(id) {
        Some(r.0[id])
    } else {
        None
    }
}

/// The ids a registry offers, in sorted order: the stored ids, and
/// `system` when there is a system theme.
pub open spec fn offered_ids(r: (Map<Seq<char>, ThemeJson>, Seq<Seq<char>>, bool)) -> Seq<Seq<char>> {
    sort_keys(if r.2 { r.1.push(system_id()) } else { r.1 })
}

/// `i` is the last entry with key `k`.
pub open spec fn is_last(s: Seq<(String, ThemeJson)>, k: Seq<char>, i: int) -> bool {
    &&& 0 <= i < s.len()
    &&& s[i].0@ == k
    &&& forall|j: int| i < j < s.len() ==> s[j].0@ != k
}

/// The theme of the last entry with key `k`: the one that stays when the
/// entries are stored in turn.
pub open spec fn last_value(s: Seq<(String, ThemeJson)>, k: Seq<char>) -> ThemeJson {
    s[choose|i: int| is_last(s, k, i)].1
}

proof fn lemma_last_value(s: Seq<(String, ThemeJson)>, k: Seq<char>, i: int)
    requires
        is_last(s, k, i),
    ensures
        last_value(s, k) == s[i].1,
{
    let c = choose|c: int| is_last(s, k, c);
    assert(is_last(s, k, c));
    assert(!(c < i));
    assert(!(i < c));
}

proof fn lemma_exists_last(s: Seq<(String, ThemeJson)>, k: Seq<char>, m: int)
    requires
        0 <= m < s.len(),
        s[m].0@ == k,
    ensures
        exists|i: int| is_last(s, k, i),
    decreases s.len() - m,
{
    if exists|j: int| m < j < s.len() && s[j].0@ == k {
        let j = choose|j: int| m < j < s.len() && s[j].0@ == k;
        lemma_exists_last(s, k, j);
    } else {
        assert(is_last(s, k, m));
    }
}

/// A theme stored under an id other than `system` is what the id names
/// afterwards.
pub proof fn law_upsert_then_get(reg: (Map<Seq<char>, ThemeJson>, Option<ThemeJson>), id: Seq<char>, theme: ThemeJson)
    requires
        id != system_id(),
    ensures
        theme_for((reg.0.insert(id, theme), reg.1), id) == Some(theme),
{
}

/// After removing the theme stored under an id other than `system`, the
/// id names nothing; other ids name what they did.
pub proof fn law_remove_then_get(reg: (Map<Seq<char>, ThemeJson>, Option<ThemeJson>), id: Seq<char>, other: Seq<char>)
    requires
        id != system_id(),
        other != id,
    ensures
        theme_for((reg.0.remove(id), reg.1), id) is None,
        theme_for((reg.0.remove(id), reg.1), other) == theme_for(reg, other),
{
}

impl ThemeRegistry {
    /// The stored ids, in storage order.
    pub closed spec fn ids(&self) -> Seq<Seq<char>> {
        keys_of(self.themes@)
    }

    /// No id is stored twice.
    pub closed spec fn wf(&self) -> bool {
        distinct_keys(self.themes@)
    }

    /// A registry holding the given themes (a later entry with an id seen
    /// before replaces it) and no system theme.
    pub fn new(themes: Vec<(String, ThemeJson)>) -> (r: ThemeRegistry)
        ensures
            r.wf(),
            r@.1 is None,
            r@.0.dom() == keys_of(themes@).to_set(),
            forall|k: Seq<char>| #[trigger] r@.0.contains_key(k) ==> r@.0[k] == last_value(themes@, k),
    {
        let mut r = ThemeRegistry { themes: Vec::new(), system_theme: None };
        assert(theme_map(r.themes@) =~= Map::<Seq<char>, ThemeJson>::empty());
        let ghost ks = keys_of(themes@);
        r.merge(themes);
        proof {
            assert(r@.0.dom() =~= ks.to_set());
            assert forall|k: Seq<char>| #[trigger] r@.0.contains_key(k) implies ks.contains(k) by {
                assert(ks.to_set().contains(k));
            }
        }
        r
    }

    /// A registry holding the built-in themes.
    pub fn with_builtin_themes(builtin: Vec<(String, ThemeJson)>) -> (r: ThemeRegistry)
        ensures
            r.wf(),
            r@.1 is None,
            r@.0.dom() == keys_of(builtin@).to_set(),
            forall|k: Seq<char>| #[trigger] r@.0.contains_key(k) ==> r@.0[k] == last_value(builtin@, k),
    {
        ThemeRegistry::new(builtin)
    }

    /// The theme an id names: `system` the system theme, any other id the
    /// theme stored under it.
    pub fn get(&self, id: &str) -> (r: Option<&ThemeJson>)
        requires
            self.wf(),
        ensures
            match theme_for(self@, id@) {
                Some(t) => r matches Some(x) && *x == t,
                None => r is None,
            },
    {
        proof {
            reveal_strlit("system");
        }
        if text_eq(id, "system") {
            return self.system_theme.as_ref();
        }
        match find_key(&self.themes, id) {
            Some(i) => {
                proof {
                    lemma_lookup_first(self.themes@, id@, i as int);
                }
                Some(&self.themes[i].1)
            },
            None => None,
        }
    }

    /// Whether an id names a theme.
    pub fn has(&self, id: &str) -> (r: bool)
        requires
            self.wf(),
        ensures
            r == theme_for(self@, id@) is Some,
    {
        self.get(id).is_some()
    }

    /// The stored themes, as `(id, theme)` entries.
    pub fn get_all(&self) -> (r: &Vec<(String, ThemeJson)>)
        requires
            self.wf(),
        ensures
            theme_map(r@) == self@.0,
            distinct_keys(r@),
    {
        &self.themes
    }

    /// The ids offered, sorted: the stored ones, and `system` when there is
    /// a system theme.
    pub fn get_ids(&self) -> (r: Vec<String>)
        requires
            self.wf(),
        ensures
            views(r@) == sort_keys(if self@.1 is Some { self.ids().push(system_id()) } else { self.ids() }),
            self.ids().to_set() == self@.0.dom(),
            self.ids().no_duplicates(),
    {
        let mut ids: Vec<String> = Vec::new();
        let mut i: usize = 0;
        while i < self.themes.len()
            invariant
                i <= self.themes@.len(),
                views(ids@) == keys_of(self.themes@).take(i as int),
            decreases self.themes@.len() - i,
        {
            let ghost prev = ids@;
            ids.push(self.themes[i].0.clone());
            assert(views(ids@) =~= views(prev).push(self.themes@[i as int].0@));
            assert(keys_of(self.themes@).take(i + 1) =~= keys_of(self.themes@).take(i as int).push(
                self.themes@[i as int].0@,
            ));
            i = i + 1;
        }
        assert(keys_of(self.themes@).take(self.themes@.len() as int) =~= keys_of(self.themes@));
        if self.system_theme.is_some() {
            let ghost prev = ids@;
            ids.push("system".to_string());
            proof {
                reveal_strlit("system");
            }
            assert(views(ids@) =~= views(prev).push(system_id()));
        }
        proof {
            assert forall|k: Seq<char>| #[trigger] keys_of(self.themes@).to_set().contains(k) == self@.0.dom().contains(k) by {
                if has_key(self.themes@, k) {
                    let j = choose|j: int| 0 <= j < self.themes@.len() && self.themes@[j].0@ == k;
                    assert(keys_of(self.themes@)[j] == k);
                }
                if keys_of(self.themes@).contains(k) {
                    let j = choose|j: int| 0 <= j < keys_of(self.themes@).len() && keys_of(self.themes@)[j] == k;
                    assert(self.themes@[j].0@ == k);
                }
            }
            assert(keys_of(self.themes@).to_set() =~= self@.0.dom());
            assert forall|a: int, b: int| 0 <= a < keys_of(self.themes@).len() && 0 <= b < keys_of(self.themes@).len()
                && a != b implies keys_of(self.themes@)[a] != keys_of(self.themes@)[b] by {
                if a < b {
                    assert(self.themes@[a].0@ != self.themes@[b].0@);
                } else {
                    assert(self.themes@[b].0@ != self.themes@[a].0@);
                }
            }
        }
        sorted_strings(&ids)
    }

    /// Stores a theme under an id, replacing any theme stored there.
    pub fn upsert(&mut self, id: String, theme: ThemeJson)
        requires
            old(self).wf(),
        ensures
            final(self).wf(),
            final(self)@ == (old(self)@.0.insert(id@, theme), old(self)@.1),
    {
        match find_key(&self.themes, id.as_str()) {
            Some(i) => {
                let ghost s = self.themes@;
                let ghost e = (id, theme);
                proof {
                    lemma_set_entry(s, i as int, e);
                }
                self.themes.set(i, (id, theme));
                assert(self.themes@ == s.update(i as int, e));
            },
            None => {
                let ghost s = self.themes@;
                let ghost e = (id, theme);
                proof {
                    lemma_push_entry(s, e);
                }
                self.themes.push((id, theme));
            },
        }
    }

    /// Stores each of the given themes in turn.
    pub fn merge(&mut self, themes: Vec<(String, ThemeJson)>)
        requires
            old(self).wf(),
        ensures
            final(self).wf(),
            final(self)@.1 == old(self)@.1,
            final(self)@.0.dom() == old(self)@.0.dom().union(keys_of(themes@).to_set()),
            forall|k: Seq<char>| #[trigger] final(self)@.0.contains_key(k) ==> final(self)@.0[k] == if keys_of(
                themes@,
            ).contains(k) {
                last_value(themes@, k)
            } else {
                old(self)@.0[k]
            },
    {
        let ghost old_map = self@.0;
        let ghost ks = keys_of(themes@);
        let n = themes.len();
        let mut rest = themes;
        let ghost all = rest@;
        let mut taken: usize = 0;
        assert(all.skip(0) =~= all);
        while rest.len() > 0
            invariant
                self.wf(),
                self@.1 == old(self)@.1,
                taken + rest@.len() == all.len(),
                all.len() == n,
                rest@ == all.skip(taken as int),
                ks == keys_of(all),
                self@.0.dom() == old_map.dom().union(ks.take(taken as int).to_set()),
                forall|k: Seq<char>| #[trigger] self@.0.contains_key(k) && !ks.take(taken as int).contains(k)
                    ==> self@.0[k] == old_map[k],
                forall|k: Seq<char>| #[trigger] ks.take(taken as int).contains(k) ==> self@.0.contains_key(k)
                    && self@.0[k] == last_value(all.take(taken as int), k),
            decreases rest@.len(),
        {
            let ghost before = self@.0;
            let (id, theme) = rest.remove(0);
            proof {
                assert(rest@ =~= all.skip(taken + 1));
            }
            let ghost k = id@;
            self.upsert(id, theme);
            proof {
                assert(ks[taken as int] == k);
                assert(ks.take(taken + 1) =~= ks.take(taken as int).push(k));
                ks.take(taken as int).lemma_push_to_set_commute(k);
                assert(self@.0.dom() =~= old_map.dom().union(ks.take(taken + 1).to_set()));
                assert forall|x: Seq<char>| #[trigger] self@.0.contains_key(x) && !ks.take(taken + 1).contains(x)
                    implies self@.0[x] == old_map[x] by {
                    assert(ks.take(taken + 1)[taken as int] == k);
                    assert(x != k);
                    if ks.take(taken as int).contains(x) {
                        let m = choose|m: int| 0 <= m < taken && ks.take(taken as int)[m] == x;
                        assert(ks.take(taken + 1)[m] == x);
                    }
                }
                let t1 = all.take(taken + 1);
                let t0 = all.take(taken as int);
                assert(t1[taken as int] == all[taken as int]);
                assert forall|x: Seq<char>| #[trigger] ks.take(taken + 1).contains(x) implies self@.0.contains_key(x)
                    && self@.0[x] == last_value(t1, x) by {
                    if x == k {
                        assert(is_last(t1, x, taken as int));
                        lemma_last_value(t1, x, taken as int);
                    } else {
                        let kt = ks.take(taken + 1);
                        let m = choose|m: int| 0 <= m < kt.len() && #[trigger] kt[m] == x;
                        assert(m < taken);
                        assert(ks.take(taken as int)[m] == x);
                        assert(ks.take(taken as int).contains(x));
                        assert(t0[m].0@ == x);
                        lemma_exists_last(t0, x, m);
                        let li = choose|li: int| is_last(t0, x, li);
                        lemma_last_value(t0, x, li);
                        assert(t1[li] == t0[li]);
                        assert(is_last(t1, x, li));
                        lemma_last_value(t1, x, li);
                    }
                }
            }
            taken = taken + 1;
        }
        assert(ks.take(all.len() as int) =~= ks);
        assert(all.take(all.len() as int) =~= all);
    }

    /// Drops the theme stored under an id; whether there was one.
    pub fn remove(&mut self, id: &str) -> (r: bool)
        requires
            old(self).wf(),
        ensures
            final(self).wf(),
            r == old(self)@.0.contains_key(id@),
            final(self)@ == (old(self)@.0.remove(id@), old(self)@.1),
    {
        match find_key(&self.themes, id) {
            Some(i) => {
                let ghost s = self.themes@;
                proof {
                    lemma_remove_entry(s, i as int);
                }
                self.themes.remove(i);
                true
            },
            None => {
                assert(self@.0 =~= self@.0.remove(id@));
                false
            },
        }
    }

    /// Sets or clears the system theme.
    pub fn set_system_theme(&mut self, theme: Option<ThemeJson>)
        requires
            old(self).wf(),
        ensures
            final(self).wf(),
            final(self)@ == (old(self)@.0, theme),
    {
        self.system_theme = theme;
    }

    /// The system theme, if set.
    pub fn get_system_theme(&self) -> (r: Option<&ThemeJson>)
        ensures
            match self@.1 {
                Some(t) => r matches Some(x) && *x == t,
                None => r is None,
            },
    {
        self.system_theme.as_ref()
    }
}

} // verus!
