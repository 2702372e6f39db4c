//! The search dialog: sidebar rows filtered by typed text.
use vstd::prelude::*;
use crate::palette::clamp_index;
use crate::sidebar::TreeItem;
use crate::text::{filter_matches, lowercase, matches_filter, to_lowercase};

verus! {

/// The search dialog's state: the rows searched, the selected row of the
/// filtered list, and the filter text.
#[derive(Debug)]
pub struct SearchDialog {
    pub items: Vec<TreeItem>,
    pub selected: usize,
    pub filter: String,
}

/// A row matches the filter when its path or its name contains it,
/// ignoring case.
pub open spec fn item_matches(it: TreeItem, filter: Seq<char>) -> bool {
    filter_matches(it.path@, filter) || filter_matches(it.name@, filter)
}

/// The rows shown for a filter: all when it is empty, else the matching
/// ones in order.
pub open spec fn search_items(items: Seq<TreeItem>, filter: Seq<char>) -> Seq<TreeItem> {
    if filter.len() == 0 {
        items
    } else {
        items.filter(|it: TreeItem| item_matches(it, filter))
    }
}

impl TreeItem {
    /// A copy of the row.
    pub fn duplicate(&self) -> (r: TreeItem)
        ensures
            r@ == self@,
    {
        TreeItem { kind: self.kind, name: self.name.clone(), path: self.path.clone(), depth: self.depth }
    }
}

impl SearchDialog {
    /// A dialog over `items` with the first row selected and no filter.
    pub fn new(items: Vec<TreeItem>) -> (d: Self)
        ensures
            d.items == items,
            d.selected == 0,
            d.filter@.len() == 0,
    {
        SearchDialog { items, selected: 0, filter: String::new() }
    }

    /// The rows that match the filter, in order.
    pub fn filtered(&self) -> (r: Vec<&TreeItem>)
        ensures
            r@.map_values(|it: &TreeItem| *it) == search_items(self.items@, self.filter@),
    {
        let items = &self.items;
        let mut out: Vec<&TreeItem> = Vec::new();
        if self.filter.as_str().is_empty() {
            let mut i: usize = 0;
            while i < items.len()
                invariant
                    i <= items@.len(),
                    out@.len() == i,
                    forall|j: int| 0 <= j < i ==> *out@[j] == items@[j],
                decreases items@.len() - i,
            {
                out.push(&items[i]);
                i = i + 1;
            }
            assert(out@.map_values(|it: &TreeItem| *it) =~= items@);
            return out;
        }
        let ghost filter = self.filter@;
        let lower = to_lowercase(self.filter.as_str());
        let ghost pred = |it: TreeItem| item_matches(it, filter);
        let mut i: usize = 0;
        while i < items.len()
            invariant
                i <= items@.len(),
                lower@ == lowercase(filter),
                pred == (|it: TreeItem| item_matches(it, filter)),
                out@.map_values(|it: &TreeItem| *it) == items@.subrange(0, i as int).filter(pred),
            decreases items@.len() - i,
        {
            let keep = matches_filter(items[i].path.as_str(), lower.as_str())
                || matches_filter(items[i].name.as_str(), lower.as_str());
            proof {
                let s = items@.subrange(0, i as int);
                assert(items@.subrange(0, i + 1) =~= s.push(items@[i as int]));
                s.lemma_filter_push(items@[i as int], pred);
            }
            if keep {
                out.push(&items[i]);
            }
            i = i + 1;
            assert(out@.map_values(|it: &TreeItem| *it) =~= items@.subrange(0, i as int).filter(pred));
        }
        assert(items@.subrange(0, items@.len() as int) =~= items@);
        out
    }

    /// Keep the selection within the filtered list.
    pub fn clamp_selection(&mut self)
        ensures
            final(self).selected == clamp_index(
                old(self).selected as nat,
                search_items(old(self).items@, old(self).filter@).len(),
            ),
            final(self).items == old(self).items,
            final(self).filter == old(self).filter,
    {
        let count = self.filtered().len();
        if count == 0 {
            self.selected = 0;
        } else if self.selected >= count {
            self.selected = count - 1;
        }
    }

    /// A copy of the selected row of the filtered list, if there is one.
    pub fn selected_item(&self) -> (r: Option<TreeItem>)
        ensures
            ({
                let f = search_items(self.items@, self.filter@);
                if self.selected < f.len() {
                    r matches Some(t) && t@ == f[self.selected as int]@
                } else {
                    r is None
                }
            }),
    {
        let filtered = self.filtered();
        if self.selected < filtered.len() {
            let ghost f = filtered@;
            assert(f.map_values(|it: &TreeItem| *it)[self.selected as int] == *f[self.selected as int]);
            Some(filtered[self.selected].duplicate())
        } else {
            None
        }
    }
}

} // verus!
