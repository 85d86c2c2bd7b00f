//! A reusable selectable-list widget: keyboard navigation, scrolling, and
//! filtering over a fixed item vector.
//!
//! The filter keeps a vector of indices into the items, always strictly
//! increasing; selection and scroll offset address the filtered view.

use vstd::prelude::*;

verus! {

/// How the scroll offset follows the selection: scroll up to reveal it, or
/// down until it is the last visible row.
pub open spec fn adjust_scroll(scroll: int, selected: int, max_visible: int) -> int {
    if selected < scroll {
        selected
    } else if selected >= scroll + max_visible {
        selected - max_visible + 1
    } else {
        scroll
    }
}

/// A generic list widget for displaying selectable items.
#[derive(Debug, Clone)]
pub struct ListWidget<T> {
    items: Vec<T>,
    filtered_indices: Vec<usize>,
    selected_index: usize,
    scroll_offset: usize,
    max_visible: usize,
}

impl<T> ListWidget<T> {
    /// All items, filtered or not.
    pub closed spec fn spec_items(&self) -> Seq<T> {
        self.items@
    }

    /// The indices of the items that pass the current filter, ascending.
    pub closed spec fn spec_filtered(&self) -> Seq<usize> {
        self.filtered_indices@
    }

    /// The selected position within the filtered view.
    pub closed spec fn spec_selected(&self) -> int {
        self.selected_index as int
    }

    /// The first visible position within the filtered view.
    pub closed spec fn spec_scroll(&self) -> int {
        self.scroll_offset as int
    }

    /// How many rows the renderer shows at once.
    pub closed spec fn spec_max_visible(&self) -> int {
        self.max_visible as int
    }

    /// Well-formedness: filter indices ascend and address items, the
    /// selection addresses the filtered view (or rests at zero when it is
    /// empty), the scroll offset never passes the selection, and at least
    /// one row is visible.
    pub open spec fn wf(&self) -> bool {
        &&& forall|k: int|
            0 <= k < self.spec_filtered().len() ==> (self.spec_filtered()[k] as int)
                < self.spec_items().len()
        &&& forall|k: int, m: int|
            0 <= k < m < self.spec_filtered().len() ==> self.spec_filtered()[k]
                < self.spec_filtered()[m]
        &&& if self.spec_filtered().len() == 0 {
            self.spec_selected() == 0
        } else {
            self.spec_selected() < self.spec_filtered().len()
        }
        &&& self.spec_scroll() <= self.spec_selected()
        &&& self.spec_max_visible() >= 1
    }

    /// A widget over the given items, unfiltered, with the first item
    /// selected.
    pub fn new(items: Vec<T>) -> (r: Self)
        ensures
            r.wf(),
            r.spec_items() == items@,
            r.spec_filtered().len() == items@.len(),
            forall|k: int| 0 <= k < items@.len() ==> r.spec_filtered()[k] as int == k,
            r.spec_selected() == 0,
            r.spec_scroll() == 0,
            r.spec_max_visible() == 10,
    {
        let mut filtered_indices: Vec<usize> = Vec::new();
        let mut i: usize = 0;
        let n = items.len();
        while i < n
            invariant
                i <= n,
                n == items@.len(),
                filtered_indices@.len() == i as int,
                forall|k: int| 0 <= k < i as int ==> filtered_indices@[k] as int == k,
            decreases n - i,
        {
            filtered_indices.push(i);
            i = i + 1;
        }
        ListWidget { items, filtered_indices, selected_index: 0, scroll_offset: 0, max_visible: 10 }
    }

    /// All items.
    pub fn items(&self) -> (r: &[T])
        ensures
            r@ == self.spec_items(),
    {
        self.items.as_slice()
    }

    /// The indices passing the current filter.
    pub fn filtered_indices(&self) -> (r: &[usize])
        ensures
            r@ == self.spec_filtered(),
    {
        self.filtered_indices.as_slice()
    }

    /// The selected position within the filtered view.
    pub fn selected_index(&self) -> (r: usize)
        ensures
            r as int == self.spec_selected(),
    {
        self.selected_index
    }

    /// The selected item, if any item passes the filter.
    pub fn selected_item(&self) -> (r: Option<&T>)
        requires
            self.wf(),
        ensures
            match r {
                Some(x) => self.spec_filtered().len() > 0 && *x == self.spec_items()[self.spec_filtered()[self.spec_selected()] as int],
                None => self.spec_filtered().len() == 0,
            },
    {
        if self.selected_index < self.filtered_indices.len() {
            let idx = self.filtered_indices[self.selected_index];
            Some(&self.items[idx])
        } else {
            None
        }
    }

    /// The selected item's index among all items, if any item passes the
    /// filter.
    pub fn selected_original_index(&self) -> (r: Option<usize>)
        requires
            self.wf(),
        ensures
            match r {
                Some(x) => self.spec_filtered().len() > 0 && x == self.spec_filtered()[self.spec_selected()],
                None => self.spec_filtered().len() == 0,
            },
    {
        if self.selected_index < self.filtered_indices.len() {
            Some(self.filtered_indices[self.selected_index])
        } else {
            None
        }
    }

    /// Set how many rows the renderer shows; at least one.
    pub fn set_max_visible(&mut self, max: usize)
        requires
            old(self).wf(),
        ensures
            final(self).wf(),
            final(self).spec_max_visible() == (if max >= 1 {
                max as int
            } else {
                1
            }),
            final(self).spec_items() == old(self).spec_items(),
            final(self).spec_filtered() == old(self).spec_filtered(),
            final(self).spec_selected() == old(self).spec_selected(),
            final(self).spec_scroll() == old(self).spec_scroll(),
    {
        self.max_visible = if max >= 1 {
            max
        } else {
            1
        };
    }

    /// The first visible position within the filtered view.
    pub fn scroll_offset(&self) -> (r: usize)
        ensures
            r as int == self.spec_scroll(),
    {
        self.scroll_offset
    }

    /// Keep the selection on screen.
    fn ensure_visible(&mut self)
        requires
            old(self).spec_max_visible() >= 1,
        ensures
            final(self).spec_scroll() == adjust_scroll(
                old(self).spec_scroll(),
                old(self).spec_selected(),
                old(self).spec_max_visible(),
            ),
            final(self).spec_scroll() <= old(self).spec_selected(),
            final(self).spec_items() == old(self).spec_items(),
            final(self).spec_filtered() == old(self).spec_filtered(),
            final(self).spec_selected() == old(self).spec_selected(),
            final(self).spec_max_visible() == old(self).spec_max_visible(),
    {
        if self.selected_index < self.scroll_offset {
            self.scroll_offset = self.selected_index;
        } else if self.selected_index - self.scroll_offset >= self.max_visible {
            self.scroll_offset = self.selected_index - (self.max_visible - 1);
        }
    }

    /// Move the selection one row up; whether it moved.
    pub fn select_up(&mut self) -> (moved: bool)
        requires
            old(self).wf(),
        ensures
            final(self).wf(),
            moved == (old(self).spec_selected() > 0),
            final(self).spec_selected() == (if old(self).spec_selected() > 0 {
                old(self).spec_selected() - 1
            } else {
                0
            }),
            final(self).spec_scroll() == (if old(self).spec_selected() > 0 {
                adjust_scroll(
                    old(self).spec_scroll(),
                    old(self).spec_selected() - 1,
                    old(self).spec_max_visible(),
                )
            } else {
                old(self).spec_scroll()
            }),
            final(self).spec_items() == old(self).spec_items(),
            final(self).spec_filtered() == old(self).spec_filtered(),
            final(self).spec_max_visible() == old(self).spec_max_visible(),
    {
        if self.selected_index > 0 {
            self.selected_index = self.selected_index - 1;
            self.ensure_visible();
            true
        } else {
            false
        }
    }

    /// Move the selection one row down; whether it moved.
    pub fn select_down(&mut self) -> (moved: bool)
        requires
            old(self).wf(),
        ensures
            final(self).wf(),
            moved == (old(self).spec_filtered().len() > 0 && old(self).spec_selected() + 1 < old(
                self,
            ).spec_filtered().len()),
            final(self).spec_selected() == (if old(self).spec_filtered().len() > 0 && old(
                self,
            ).spec_selected() + 1 < old(self).spec_filtered().len() {
                old(self).spec_selected() + 1
            } else {
                old(self).spec_selected()
            }),
            final(self).spec_scroll() == (if old(self).spec_filtered().len() > 0 && old(
                self,
            ).spec_selected() + 1 < old(self).spec_filtered().len() {
                adjust_scroll(
                    old(self).spec_scroll(),
                    old(self).spec_selected() + 1,
                    old(self).spec_max_visible(),
                )
            } else {
                old(self).spec_scroll()
            }),
            final(self).spec_items() == old(self).spec_items(),
            final(self).spec_filtered() == old(self).spec_filtered(),
            final(self).spec_max_visible() == old(self).spec_max_visible(),
    {
        let len = self.filtered_indices.len();
        if len > 0 && self.selected_index < len - 1 {
            self.selected_index = self.selected_index + 1;
            self.ensure_visible();
            true
        } else {
            false
        }
    }

    /// Select the row at a filtered index; whether the index was in range.
    pub fn select_index(&mut self, index: usize) -> (moved: bool)
        requires
            old(self).wf(),
        ensures
            final(self).wf(),
            moved == ((index as int) < old(self).spec_filtered().len()),
            final(self).spec_selected() == (if (index as int) < old(self).spec_filtered().len() {
                index as int
            } else {
                old(self).spec_selected()
            }),
            final(self).spec_scroll() == (if (index as int) < old(self).spec_filtered().len() {
                adjust_scroll(
                    old(self).spec_scroll(),
                    index as int,
                    old(self).spec_max_visible(),
                )
            } else {
                old(self).spec_scroll()
            }),
            final(self).spec_items() == old(self).spec_items(),
            final(self).spec_filtered() == old(self).spec_filtered(),
            final(self).spec_max_visible() == old(self).spec_max_visible(),
    {
        if index < self.filtered_indices.len() {
            self.selected_index = index;
            self.ensure_visible();
            true
        } else {
            false
        }
    }

    /// Keep only the items the predicate accepts, in their original order,
    /// and reset selection and scroll to the top.
    pub fn filter<F: Fn(&T) -> bool>(&mut self, predicate: F)
        requires
            old(self).wf(),
            forall|i: int|
                0 <= i < old(self).spec_items().len() ==> call_requires(
                    predicate,
                    (&old(self).spec_items()[i],),
                ),
        ensures
            final(self).wf(),
            final(self).spec_items() == old(self).spec_items(),
            final(self).spec_selected() == 0,
            final(self).spec_scroll() == 0,
            final(self).spec_max_visible() == old(self).spec_max_visible(),
            forall|k: int|
                0 <= k < final(self).spec_filtered().len() ==> call_ensures(
                    predicate,
                    (&old(self).spec_items()[final(self).spec_filtered()[k] as int],),
                    true,
                ),
            forall|i: usize|
                (i as int) < old(self).spec_items().len() && !final(self).spec_filtered().contains(
                    i,
                ) ==> call_ensures(predicate, (&old(self).spec_items()[i as int],), false),
    {
        let ghost items0 = self.items@;
        let mut kept: Vec<usize> = Vec::new();
        let mut i: usize = 0;
        let n = self.items.len();
        while i < n
            invariant
                i <= n,
                n == items0.len(),
                self.items@ == items0,
                forall|j: int|
                    0 <= j < items0.len() ==> call_requires(predicate, (&items0[j],)),
                forall|k: int|
                    0 <= k < kept@.len() ==> (kept@[k] as int) < i as int,
                forall|k: int, m: int| 0 <= k < m < kept@.len() ==> kept@[k] < kept@[m],
                forall|k: int|
                    0 <= k < kept@.len() ==> call_ensures(predicate, (&items0[kept@[k] as int],), true),
                forall|j: usize| (j as int) < i as int && !kept@.contains(j) ==> call_ensures(predicate, (&items0[j as int],), false),
            decreases n - i,
        {
            let ghost kept0 = kept@;
            let keep = predicate(&self.items[i]);
            if keep {
                kept.push(i);
                proof {
                    assert(kept@[kept0.len() as int] == i);
                    assert(kept@.contains(i));
                    assert forall|j: usize|
                        (j as int) < i as int + 1 && !kept@.contains(j) implies call_ensures(
                        predicate,
                        (&items0[j as int],),
                        false,
                    ) by {
                        if kept0.contains(j) {
                            let w = choose|w: int| 0 <= w < kept0.len() && kept0[w] == j;
                            assert(kept@[w] == j);
                        }
                    }
                }
            } else {
                proof {
                    assert forall|j: usize|
                        (j as int) < i as int + 1 && !kept@.contains(j) implies call_ensures(
                        predicate,
                        (&items0[j as int],),
                        false,
                    ) by {
                    }
                }
            }
            i = i + 1;
        }
        self.filtered_indices = kept;
        self.selected_index = 0;
        self.scroll_offset = 0;
    }

    /// Show every item again, and reset selection and scroll to the top.
    pub fn clear_filter(&mut self)
        requires
            old(self).wf(),
        ensures
            final(self).wf(),
            final(self).spec_items() == old(self).spec_items(),
            final(self).spec_filtered().len() == old(self).spec_items().len(),
            forall|k: int|
                0 <= k < old(self).spec_items().len() ==> final(self).spec_filtered()[k] as int
                    == k,
            final(self).spec_selected() == 0,
            final(self).spec_scroll() == 0,
            final(self).spec_max_visible() == old(self).spec_max_visible(),
    {
        let mut filtered_indices: Vec<usize> = Vec::new();
        let mut i: usize = 0;
        let n = self.items.len();
        while i < n
            invariant
                i <= n,
                n == self.items@.len(),
                filtered_indices@.len() == i as int,
                forall|k: int| 0 <= k < i as int ==> filtered_indices@[k] as int == k,
            decreases n - i,
        {
            filtered_indices.push(i);
            i = i + 1;
        }
        self.filtered_indices = filtered_indices;
        self.selected_index = 0;
        self.scroll_offset = 0;
    }

    /// Whether nothing passes the filter.
    pub fn is_empty(&self) -> (r: bool)
        ensures
            r == (self.spec_filtered().len() == 0),
    {
        self.filtered_indices.len() == 0
    }

    /// Number of items passing the filter.
    pub fn len(&self) -> (r: usize)
        ensures
            r as int == self.spec_filtered().len(),
    {
        self.filtered_indices.len()
    }

    /// The rows currently on screen: each with its position in the filtered
    /// view, the item, and whether it is the selected row.
    pub fn visible_items(&self) -> (r: Vec<(usize, &T, bool)>)
        requires
            self.wf(),
        ensures
            ({
                let start = self.spec_scroll();
                let end = if start + self.spec_max_visible() < self.spec_filtered().len() {
                    start + self.spec_max_visible()
                } else {
                    self.spec_filtered().len() as int
                };
                &&& r@.len() == end - start
                &&& forall|m: int|
                    0 <= m < r@.len() ==> r@[m].0 as int == start + m && *r@[m].1
                        == self.spec_items()[self.spec_filtered()[start + m] as int] && r@[m].2 == (
                    start + m == self.spec_selected())
            }),
    {
        let len = self.filtered_indices.len();
        let start = self.scroll_offset;
        let end = if len - start < self.max_visible {
            len
        } else {
            start + self.max_visible
        };
        let mut r: Vec<(usize, &T, bool)> = Vec::new();
        let mut k = start;
        while k < end
            invariant
                start <= k <= end,
                end as int <= self.spec_filtered().len(),
                self.wf(),
                r@.len() == k - start,
                forall|m: int|
                    0 <= m < r@.len() ==> r@[m].0 as int == start as int + m && *r@[m].1
                        == self.spec_items()[self.spec_filtered()[start as int + m] as int]
                        && r@[m].2 == (start as int + m == self.spec_selected()),
            decreases end - k,
        {
            let original_idx = self.filtered_indices[k];
            let is_selected = k == self.selected_index;
            r.push((k, &self.items[original_idx], is_selected));
            k = k + 1;
        }
        r
    }
}

} // verus!
