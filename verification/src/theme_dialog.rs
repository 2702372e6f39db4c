//! The theme switcher: theme ids filtered by typed text.
use vstd::prelude::*;
use crate::palette::clamp_index;
use crate::text::{filter_matches, lowercase, matches_filter, to_lowercase};

verus! {

/// The theme switcher's state: the theme ids offered, the selected row of
/// the filtered list, the filter text, and the active theme.
#[derive(Debug)]
pub struct ThemeDialog {
    pub themes: Vec<String>,
    pub selected: usize,
    pub filter: String,
    pub active_theme: String,
}

/// The ids shown for a filter: all when it is empty, else those that
/// contain it, ignoring case, in order.
pub open spec fn theme_items(themes: Seq<String>, filter: Seq<char>) -> Seq<String> {
    if filter.len() == 0 {
        themes
    } else {
        themes.filter(|t: String| filter_matches(t@, filter))
    }
}

impl ThemeDialog {
    /// A dialog over `themes` with the first row selected and no filter.
    pub fn new(themes: Vec<String>, active_theme: String) -> (d: Self)
        ensures
            d.themes == themes,
            d.active_theme == active_theme,
            d.selected == 0,
            d.filter@.len() == 0,
    {
        ThemeDialog { themes, selected: 0, filter: String::new(), active_theme }
    }

    /// The theme ids that match the filter, in order.
    pub fn filtered(&self) -> (r: Vec<&String>)
        ensures
            r@.map_values(|t: &String| *t) == theme_items(self.themes@, self.filter@),
    {
        let items = &self.themes;
        let mut out: Vec<&String> = Vec::new();
        if self.filter.as_str().is_empty() {
            let mut i: usize = 0;
            while i < items.len()
                invariant
                    i <= items@.len(),
                    out@.len() == i,
                    forall|j: int| 0 <= j < i ==> *out@[j] == items@[j],
                decreases items@.len() - i,
            {
                out.push(&items[i]);
                i = i + 1;
            }
            assert(out@.map_values(|t: &String| *t) =~= items@);
            return out;
        }
        let ghost filter = self.filter@;
        let lower = to_lowercase(self.filter.as_str());
        let ghost pred = |t: String| filter_matches(t@, filter);
        let mut i: usize = 0;
        while i < items.len()
            invariant
                i <= items@.len(),
                lower@ == lowercase(filter),
                pred == (|t: String| filter_matches(t@, filter)),
                out@.map_values(|t: &String| *t) == items@.subrange(0, i as int).filter(pred),
            decreases items@.len() - i,
        {
            let keep = matches_filter(items[i].as_str(), lower.as_str());
            proof {
                let s = items@.subrange(0, i as int);
                assert(items@.subrange(0, i + 1) =~= s.push(items@[i as int]));
                s.lemma_filter_push(items@[i as int], pred);
            }
            if keep {
                out.push(&items[i]);
            }
            i = i + 1;
            assert(out@.map_values(|t: &String| *t) =~= items@.subrange(0, i as int).filter(pred));
        }
        assert(items@.subrange(0, items@.len() as int) =~= items@);
        out
    }

    /// Keep the selection within the filtered list.
    pub fn clamp_selection(&mut self)
        ensures
            final(self).selected == clamp_index(
                old(self).selected as nat,
                theme_items(old(self).themes@, old(self).filter@).len(),
            ),
            final(self).themes == old(self).themes,
            final(self).filter == old(self).filter,
            final(self).active_theme == old(self).active_theme,
    {
        let count = self.filtered().len();
        if count == 0 {
            self.selected = 0;
        } else if self.selected >= count {
            self.selected = count - 1;
        }
    }

    /// The selected theme id of the filtered list, if there is one.
    pub fn selected_theme(&self) -> (r: Option<String>)
        ensures
            ({
                let f = theme_items(self.themes@, self.filter@);
                if self.selected < f.len() {
                    r matches Some(t) && t@ == f[self.selected as int]@
                } else {
                    r is None
                }
            }),
    {
        let filtered = self.filtered();
        if self.selected < filtered.len() {
            let ghost f = filtered@;
            assert(f.map_values(|t: &String| *t)[self.selected as int] == *f[self.selected as int]);
            Some(filtered[self.selected].clone())
        } else {
            None
        }
    }
}

} // verus!
