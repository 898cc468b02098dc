use std::collections::HashSet;
use vstd::prelude::*;
use vstd::std_specs::hash::group_hash_axioms;

verus! {

broadcast use group_hash_axioms;

/// Which rows can be selected, together with the current selection.
pub enum Selection {
    /// No row can be selected.
    Disabled,
    /// One row at most can be selected: `Some(index)` when a row is.
    Single(Option<usize>),
    /// Any set of rows can be selected.
    Multiple(HashSet<usize>),
}

/// The indices `lo..=hi`.
pub open spec fn index_span(lo: usize, hi: usize) -> Set<usize> {
    Set::new(|k: usize| lo <= k <= hi)
}

/// The selected set and the anchor of range selection after a click on row `i` under
/// multiple selection.
///
/// With the meta (or control) key the row is toggled; the anchor is cleared when nothing
/// stays selected and moves to `i` when one row is. With shift the rows from the anchor to
/// `i` are added, or, without an anchor, `i` is added and becomes it. A plain click selects
/// `i` alone and makes it the anchor.
pub open spec fn multiple_after_click(
    set: Set<usize>,
    first: Option<usize>,
    i: usize,
    meta: bool,
    shift: bool,
) -> (Set<usize>, Option<usize>) {
    if meta {
        let s = if set.contains(i) {
            set.remove(i)
        } else {
            set.insert(i)
        };
        let f = if s.len() == 0 {
            None
        } else if s.len() == 1 {
            Some(i)
        } else {
            first
        };
        (s, f)
    } else if shift {
        match first {
            Some(f) => {
                let lo = if f < i {
                    f
                } else {
                    i
                };
                let hi = if f < i {
                    i
                } else {
                    f
                };
                (set.union(index_span(lo, hi)), first)
            },
            None => (set.insert(i), Some(i)),
        }
    } else {
        (set![i], Some(i))
    }
}

impl Selection {
    /// The selected rows.
    pub open spec fn selected(&self) -> Set<usize> {
        match self {
            Selection::Disabled => Set::empty(),
            Selection::Single(Some(i)) => set![*i],
            Selection::Single(None) => Set::empty(),
            Selection::Multiple(s) => s@,
        }
    }

    /// Two selections of the same kind.
    pub open spec fn same_kind(&self, other: &Selection) -> bool {
        &&& (self is Disabled <==> other is Disabled)
        &&& (self is Single <==> other is Single)
        &&& (self is Multiple <==> other is Multiple)
    }

    /// Whether row `i` is selected.
    pub fn is_selected(&self, i: usize) -> (r: bool)
        ensures
            r == self.selected().contains(i),
    {
        match self {
            Selection::Disabled => false,
            Selection::Single(selected_index) => *selected_index == Some(i),
            Selection::Multiple(selected_indices) => selected_indices.contains(&i),
        }
    }

    /// Clears the selection; its kind stays.
    pub fn clear(&mut self)
        ensures
            final(self).same_kind(old(self)),
            final(self).selected() == Set::<usize>::empty(),
    {
        match self {
            Selection::Disabled => {},
            Selection::Single(selected_index) => {
                *selected_index = None;
            },
            Selection::Multiple(selected_indices) => {
                selected_indices.clear();
            },
        }
    }
}

/// `(sel, first)` is the selection and anchor after a click on row `i` from `(old_sel,
/// old_first)`: a disabled selection stays as it is; under single selection the click
/// selects the row, or clears the selection when that row was the one selected; under
/// multiple selection see `multiple_after_click`.
pub open spec fn selection_clicked(
    old_sel: Selection,
    old_first: Option<usize>,
    sel: Selection,
    first: Option<usize>,
    i: usize,
    meta: bool,
    shift: bool,
) -> bool {
    &&& sel.same_kind(&old_sel)
    &&& match old_sel {
        Selection::Disabled => first == old_first,
        Selection::Single(s) => {
            &&& first == old_first
            &&& sel == Selection::Single(
                if s == Some(i) {
                    None
                } else {
                    Some(i)
                },
            )
        },
        Selection::Multiple(set) => {
            let (s, f) = multiple_after_click(set@, old_first, i, meta, shift);
            &&& sel.selected() == s
            &&& first == f
        },
    }
}

/// Updates the selection for a click on row `i`, with the state of the meta (or control) and
/// shift keys; see `selection_clicked`. `first_selected_index` is the anchor of range
/// selection.
pub fn update_selection(
    selection: &mut Selection,
    first_selected_index: &mut Option<usize>,
    i: usize,
    meta_pressed: bool,
    shift_pressed: bool,
)
    ensures
        selection_clicked(
            *old(selection),
            *old(first_selected_index),
            *final(selection),
            *final(first_selected_index),
            i,
            meta_pressed,
            shift_pressed,
        ),
{
    match selection {
        Selection::Disabled => {},
        Selection::Single(selected_index) => {
            if *selected_index == Some(i) {
                *selected_index = None;
            } else {
                *selected_index = Some(i);
            }
        },
        Selection::Multiple(indices) => {
            let ghost old_set = indices@;
            if meta_pressed {
                if indices.contains(&i) {
                    indices.remove(&i);
                } else {
                    indices.insert(i);
                }
                let n = indices.len();
                if n == 0 {
                    *first_selected_index = None;
                } else if n == 1 {
                    *first_selected_index = Some(i);
                }
            } else if shift_pressed {
                match *first_selected_index {
                    Some(f) => {
                        let lo = if f < i {
                            f
                        } else {
                            i
                        };
                        let hi = if f < i {
                            i
                        } else {
                            f
                        };
                        let mut k = lo;
                        while k < hi
                            invariant
                                lo <= k <= hi,
                                indices@ == old_set.union(Set::new(|x: usize| lo <= x < k)),
                            decreases hi - k,
                        {
                            indices.insert(k);
                            k = k + 1;
                            assert(indices@ =~= old_set.union(Set::new(|x: usize| lo <= x < k)));
                        }
                        indices.insert(hi);
                        assert(indices@ =~= old_set.union(index_span(lo, hi)));
                    },
                    None => {
                        indices.insert(i);
                        *first_selected_index = Some(i);
                    },
                }
            } else {
                indices.clear();
                indices.insert(i);
                assert(indices@ =~= set![i]);
                *first_selected_index = Some(i);
            }
        },
    }
}

/// Under multiple selection with nothing selected, a click on row `a` and then a
/// shift-click on row `b` select exactly the rows from `a` to `b`.
pub proof fn lemma_shift_click_selects_span(a: usize, b: usize)
    ensures
        ({
            let (s1, f1) = multiple_after_click(Set::empty(), None, a, false, false);
            let (s2, f2) = multiple_after_click(s1, f1, b, false, true);
            &&& s2 == if a < b {
                index_span(a, b)
            } else {
                index_span(b, a)
            }
            &&& f2 == Some(a)
        }),
{
    let (s1, f1) = multiple_after_click(Set::empty(), None, a, false, false);
    let (s2, f2) = multiple_after_click(s1, f1, b, false, true);
    if a < b {
        assert(s2 =~= index_span(a, b));
    } else {
        assert(s2 =~= index_span(b, a));
    }
}

} // verus!
