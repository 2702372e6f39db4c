//! The command palette: a fixed list of commands filtered by typed text.
use vstd::prelude::*;
use crate::text::{filter_matches, lowercase, matches_filter, to_lowercase, is_substring};

verus! {

/// What a palette entry does when confirmed.
#[derive(Debug, Clone, Copy, PartialEq, Eq, Structural)]
pub enum PaletteAction {
    SwitchTheme,
    ReloadConfig,
    Quit,
}

/// A palette entry: the label shown and its action.
#[derive(Debug, Clone)]
pub struct PaletteItem {
    pub label: String,
    pub action: PaletteAction,
}

/// The command palette's state: its items, the selected row of the filtered
/// list, and the filter text.
#[derive(Debug)]
pub struct Palette {
    pub items: Vec<PaletteItem>,
    pub selected: usize,
    pub filter: String,
}

/// The entries of the default palette, by label and action.
pub open spec fn default_entries() -> Seq<(Seq<char>, PaletteAction)> {
    seq![
        ("Switch Theme"@, PaletteAction::SwitchTheme),
        ("Reload Config"@, PaletteAction::ReloadConfig),
        ("Quit"@, PaletteAction::Quit),
    ]
}

/// An item's label and action as plain values.
pub open spec fn item_entry(it: PaletteItem) -> (Seq<char>, PaletteAction) {
    (it.label@, it.action)
}

/// The items shown for a filter: all of them when the filter is empty, else
/// those whose label contains the filter, ignoring case, in order.
pub open spec fn filter_items(items: Seq<PaletteItem>, filter: Seq<char>) -> Seq<PaletteItem> {
    if filter.len() == 0 {
        items
    } else {
        items.filter(|it: PaletteItem| filter_matches(it.label@, filter))
    }
}

/// The selection after clamping to a list of `count` rows.
pub open spec fn clamp_index(selected: nat, count: nat) -> nat {
    if count == 0 {
        0
    } else if selected >= count {
        (count - 1) as nat
    } else {
        selected
    }
}

/// The palette's default commands: Switch Theme, Reload Config, Quit.
pub fn default_items() -> (v: Vec<PaletteItem>)
    ensures
        v@.map_values(|it: PaletteItem| item_entry(it)) == default_entries(),
{
    let mut v: Vec<PaletteItem> = Vec::new();
    v.push(PaletteItem { label: String::from_str("Switch Theme"), action: PaletteAction::SwitchTheme });
    v.push(PaletteItem { label: String::from_str("Reload Config"), action: PaletteAction::ReloadConfig });
    v.push(PaletteItem { label: String::from_str("Quit"), action: PaletteAction::Quit });
    assert(v@.map_values(|it: PaletteItem| item_entry(it)) =~= default_entries());
    v
}

/// The items of `items` that a filter keeps, in order.
pub fn filter_item_refs<'a>(items: &'a Vec<PaletteItem>, filter: &str) -> (r: Vec<&'a PaletteItem>)
    ensures
        r@.map_values(|it: &PaletteItem| *it) == filter_items(items@, filter@),
{
    let mut out: Vec<&PaletteItem> = Vec::new();
    if filter.is_empty() {
        let mut i: usize = 0;
        while i < items.len()
            invariant
                i <= items@.len(),
                out@.len() == i,
                forall|j: int| 0 <= j < i ==> *out@[j] == items@[j],
            decreases items@.len() - i,
        {
            out.push(&items[i]);
            i = i + 1;
        }
        assert(out@.map_values(|it: &PaletteItem| *it) =~= items@);
        return out;
    }
    let lower = to_lowercase(filter);
    let ghost pred = |it: PaletteItem| filter_matches(it.label@, filter@);
    let mut i: usize = 0;
    while i < items.len()
        invariant
            i <= items@.len(),
            lower@ == lowercase(filter@),
            filter@.len() != 0,
            pred == (|it: PaletteItem| filter_matches(it.label@, filter@)),
            out@.map_values(|it: &PaletteItem| *it) == items@.subrange(0, i as int).filter(pred),
        decreases items@.len() - i,
    {
        let keep = matches_filter(items[i].label.as_str(), lower.as_str());
        proof {
            let s = items@.subrange(0, i as int);
            assert(items@.subrange(0, i + 1) =~= s.push(items@[i as int]));
            s.lemma_filter_push(items@[i as int], pred);
        }
        if keep {
            out.push(&items[i]);
        }
        i = i + 1;
        assert(out@.map_values(|it: &PaletteItem| *it) =~= items@.subrange(0, i as int).filter(pred));
    }
    assert(items@.subrange(0, items@.len() as int) =~= items@);
    out
}

impl Palette {
    /// A palette with the default commands, nothing selected but the first
    /// row and an empty filter.
    pub fn new() -> (p: Self)
        ensures
            p.items@.map_values(|it: PaletteItem| item_entry(it)) == default_entries(),
            p.selected == 0,
            p.filter@.len() == 0,
    {
        Palette { items: default_items(), selected: 0, filter: String::new() }
    }

    /// The items that match the filter, in order.
    pub fn filtered(&self) -> (r: Vec<&PaletteItem>)
        ensures
            r@.map_values(|it: &PaletteItem| *it) == filter_items(self.items@, self.filter@),
    {
        filter_item_refs(&self.items, self.filter.as_str())
    }

    /// The action of the selected row of the filtered list, if there is one.
    pub fn selected_action(&self) -> (r: Option<PaletteAction>)
        ensures
            ({
                let f = filter_items(self.items@, self.filter@);
                if self.selected < f.len() {
                    r == Some(f[self.selected as int].action)
                } else {
                    r is None
                }
            }),
    {
        let filtered = self.filtered();
        if self.selected < filtered.len() {
            let ghost f = filtered@;
            assert(f.map_values(|it: &PaletteItem| *it)[self.selected as int] == *f[self.selected as int]);
            Some(filtered[self.selected].action)
        } else {
            None
        }
    }

    /// Keep the selection within the filtered list: 0 when it is empty, its
    /// last row when the selection is past the end.
    pub fn clamp_selection(&mut self)
        ensures
            final(self).selected == clamp_index(
                old(self).selected as nat,
                filter_items(old(self).items@, old(self).filter@).len(),
            ),
            final(self).items == old(self).items,
            final(self).filter == old(self).filter,
    {
        let count = self.filtered().len();
        if count == 0 {
            self.selected = 0;
        } else if self.selected >= count {
            self.selected = count - 1;
        }
    }
}

} // verus!
