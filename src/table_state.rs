use crate::column_sort::ColumnSort;
use crate::display_strategy::DisplayStrategy;
use crate::loaded_rows::{
    grown, is_missing_range, marked_loading, none_missing, placeholders, resized, written,
    LoadedRows,
};
use crate::selection::{selection_clicked, update_selection, Selection};
use crate::sorting::{sorting_after_click, SortingMode, TableHeadEvent};
use crate::window::{
    compute_window, display_window, fetch_ranges, load_window, split_missing_range, window_fits,
};
use std::collections::VecDeque;
use std::ops::Range;
use vstd::prelude::*;

verus! {

/// A fetch that the table asks its data source for.
#[derive(Debug, PartialEq, Eq)]
pub struct LoadRequest {
    /// The rows to fetch.
    pub range: Range<usize>,
    /// The reload count when the fetch was issued; a result that comes back after a reload
    /// is dropped.
    pub reload_count: usize,
    /// The row count known when the fetch was issued.
    pub row_count: Option<usize>,
}

/// The reload count after one more reload; it wraps around.
pub open spec fn next_reload_count(n: usize) -> usize {
    if n == usize::MAX {
        0
    } else {
        (n + 1) as usize
    }
}

/// The row count that a successful load reveals: a source that returns fewer rows than
/// were asked for has no more, unless a known count already ends there or earlier.
pub open spec fn revealed_row_count<Row>(
    request: LoadRequest,
    result: Result<(Vec<Row>, Range<usize>), String>,
) -> Option<usize> {
    match result {
        Ok((_, loaded)) => if loaded.end < request.range.end {
            match request.row_count {
                Some(n) => if loaded.end < n {
                    Some(loaded.end)
                } else {
                    None
                },
                None => Some(loaded.end),
            }
        } else {
            None
        },
        Err(_) => None,
    }
}

/// The ranges that `requests` ask for, in order.
pub open spec fn request_ranges(requests: Seq<LoadRequest>) -> Seq<Range<usize>> {
    Seq::new(requests.len(), |k: int| requests[k].range)
}

/// The state of a table that loads its rows from a data source, window by window.
///
/// The table asks for the rows of the visible window that are missing (`plan_loads`), the
/// caller fetches them and hands each outcome back (`apply_load_result`). Sorting changes
/// and reloads clear the cache and the selection, and make results of earlier fetches stale.
pub struct TableState<Row> {
    /// The cache of row states.
    pub loaded_rows: LoadedRows<Row>,
    /// The number of rows, once known.
    pub row_count: Option<usize>,
    /// How many times the cache has been cleared, wrapping around.
    pub reload_count: usize,
    /// The sorting, by priority: column index and direction.
    pub sorting: VecDeque<(usize, ColumnSort)>,
    pub sorting_mode: SortingMode,
    pub selection: Selection,
    /// The anchor of range selection.
    pub first_selected_index: Option<usize>,
    pub display_strategy: DisplayStrategy,
    /// The size of the chunks that the data source serves, if it serves chunks.
    pub chunk_size: Option<usize>,
    /// The rows to render.
    pub display_range: Range<usize>,
}

impl<Row> TableState<Row> {
    /// A positive chunk size, and a valid display strategy.
    pub open spec fn wf(&self) -> bool {
        &&& self.chunk_size matches Some(c) ==> c > 0
        &&& self.display_strategy.wf()
    }

    /// Under pagination, the page count for `n` rows fits in `usize`.
    pub open spec fn count_fits(&self, n: usize) -> bool {
        self.display_strategy matches DisplayStrategy::Pagination { row_count: p, .. } ==> n / p
            < usize::MAX
    }

    /// A table with nothing loaded, no row count, no sorting and nothing selected.
    pub fn new(
        sorting_mode: SortingMode,
        selection: Selection,
        display_strategy: DisplayStrategy,
        chunk_size: Option<usize>,
    ) -> (r: Self)
        requires
            display_strategy.wf(),
            chunk_size matches Some(c) ==> c > 0,
        ensures
            r.wf(),
            r.loaded_rows@ == Seq::<crate::loaded_rows::RowState<Row>>::empty(),
            r.row_count is None,
            r.reload_count == 0,
            r.sorting@ == Seq::<(usize, ColumnSort)>::empty(),
            r.sorting_mode == sorting_mode,
            r.selection == selection,
            r.first_selected_index is None,
            r.display_strategy == display_strategy,
            r.chunk_size == chunk_size,
            r.display_range == (0usize..0usize),
    {
        TableState {
            loaded_rows: LoadedRows::new(),
            row_count: None,
            reload_count: 0,
            sorting: VecDeque::new(),
            sorting_mode,
            selection,
            first_selected_index: None,
            display_strategy,
            chunk_size,
            display_range: 0..0,
        }
    }

    /// Records that the data source holds `row_count` rows: the cache is resized to it and
    /// a paginated strategy counts its pages.
    pub fn set_known_row_count(&mut self, row_count: usize)
        requires
            old(self).wf(),
            old(self).count_fits(row_count),
        ensures
            final(self).wf(),
            final(self).row_count == Some(row_count),
            final(self).loaded_rows@ == resized(old(self).loaded_rows@, row_count as nat),
            final(self).display_strategy.page_rows() == old(self).display_strategy.page_rows(),
            final(self).reload_count == old(self).reload_count,
            final(self).sorting == old(self).sorting,
            final(self).selection == old(self).selection,
            final(self).first_selected_index == old(self).first_selected_index,
            final(self).chunk_size == old(self).chunk_size,
            final(self).display_range == old(self).display_range,
    {
        self.row_count = Some(row_count);
        self.loaded_rows.resize(row_count);
        self.display_strategy.set_row_count(row_count);
    }

    /// Clears the cache and the selection, and makes every fetch issued so far stale. With
    /// `clear_row_count` the row count is forgotten too; the result says whether it was
    /// known, and so should be asked for again.
    pub fn clear(&mut self, clear_row_count: bool) -> (reload_row_count: bool)
        requires
            old(self).wf(),
        ensures
            final(self).wf(),
            final(self).loaded_rows@ == placeholders::<Row>(old(self).loaded_rows@.len()),
            final(self).selection.same_kind(&old(self).selection),
            final(self).selection.selected() == Set::<usize>::empty(),
            final(self).first_selected_index is None,
            final(self).reload_count == next_reload_count(old(self).reload_count),
            final(self).reload_count != old(self).reload_count,
            clear_row_count ==> final(self).row_count is None && reload_row_count == old(
                self,
            ).row_count is Some,
            !clear_row_count ==> final(self).row_count == old(self).row_count && !reload_row_count,
            final(self).sorting == old(self).sorting,
            final(self).sorting_mode == old(self).sorting_mode,
            final(self).display_strategy == old(self).display_strategy,
            final(self).chunk_size == old(self).chunk_size,
            final(self).display_range == old(self).display_range,
    {
        self.selection.clear();
        self.first_selected_index = None;
        self.loaded_rows.clear();
        let mut reload = false;
        if clear_row_count {
            reload = self.row_count.is_some();
            self.row_count = None;
        }
        self.reload_count = self.reload_count.wrapping_add(1);
        reload
    }

    /// Updates the sorting for a click on a column's head, then clears the cache so that the
    /// rows are fetched again in the new order.
    pub fn on_head_click(&mut self, event: TableHeadEvent)
        requires
            old(self).wf(),
        ensures
            final(self).wf(),
            final(self).sorting@ == sorting_after_click(
                old(self).sorting@,
                event.index,
                old(self).sorting_mode,
            ),
            final(self).loaded_rows@ == placeholders::<Row>(old(self).loaded_rows@.len()),
            final(self).selection.selected() == Set::<usize>::empty(),
            final(self).first_selected_index is None,
            final(self).reload_count != old(self).reload_count,
            final(self).row_count == old(self).row_count,
            final(self).sorting_mode == old(self).sorting_mode,
            final(self).display_strategy == old(self).display_strategy,
            final(self).chunk_size == old(self).chunk_size,
    {
        self.sorting_mode.update_sorting_from_event(&mut self.sorting, event);
        self.clear(false);
    }

    /// Updates the selection for a click on row `i`; the result says whether the row is
    /// selected afterwards.
    pub fn on_row_click(&mut self, i: usize, meta_pressed: bool, shift_pressed: bool) -> (r: bool)
        requires
            old(self).wf(),
        ensures
            final(self).wf(),
            r == final(self).selection.selected().contains(i),
            selection_clicked(
                old(self).selection,
                old(self).first_selected_index,
                final(self).selection,
                final(self).first_selected_index,
                i,
                meta_pressed,
                shift_pressed,
            ),
            final(self).loaded_rows == old(self).loaded_rows,
            final(self).row_count == old(self).row_count,
            final(self).reload_count == old(self).reload_count,
            final(self).sorting == old(self).sorting,
            final(self).display_range == old(self).display_range,
    {
        update_selection(
            &mut self.selection,
            &mut self.first_selected_index,
            i,
            meta_pressed,
            shift_pressed,
        );
        self.selection.is_selected(i)
    }

    /// Works out the window for `visible_row_count` rows visible from `first_visible` on,
    /// marks the rows of it that are missing as loading, and returns the fetches to issue:
    /// none when nothing is missing or nothing is visible.
    pub fn plan_loads(&mut self, first_visible: usize, visible_row_count: usize) -> (r: Vec<
        LoadRequest,
    >)
        requires
            old(self).wf(),
            window_fits(first_visible, old(self).chunk_size),
        ensures
            final(self).wf(),
            final(self).row_count == old(self).row_count,
            final(self).reload_count == old(self).reload_count,
            final(self).sorting == old(self).sorting,
            final(self).selection == old(self).selection,
            final(self).first_selected_index == old(self).first_selected_index,
            final(self).display_strategy == old(self).display_strategy,
            final(self).chunk_size == old(self).chunk_size,
            forall|k: int|
                0 <= k < r@.len() ==> (#[trigger] r@[k]).reload_count == old(self).reload_count
                    && r@[k].row_count == old(self).row_count,
            visible_row_count == 0 ==> r@.len() == 0 && *final(self) == *old(self),
            visible_row_count > 0 ==> {
                let load = load_window(
                    first_visible as int,
                    visible_row_count as int,
                    old(self).row_count,
                    old(self).chunk_size,
                    old(self).display_strategy.page_rows() is Some,
                );
                let g = grown(old(self).loaded_rows@, load.1 as nat);
                &&& (final(self).display_range.start as int, final(self).display_range.end as int)
                    == display_window(
                    first_visible as int,
                    load,
                    old(self).display_strategy.page_rows(),
                )
                &&& r@.len() == 0 ==> none_missing(g, load.0, load.1) && final(self).loaded_rows@
                    == g
                &&& r@.len() > 0 ==> exists|m: Range<usize>|
                    {
                        &&& is_missing_range(g, load.0, load.1, Some(m))
                        &&& final(self).loaded_rows@ == marked_loading(g, m)
                        &&& request_ranges(r@) == fetch_ranges(
                            m,
                            old(self).chunk_size,
                        )
                    }
            },
    {
        let window = compute_window(
            first_visible,
            visible_row_count,
            self.row_count,
            self.chunk_size,
            &self.display_strategy,
        );
        let w = match window {
            Some(w) => w,
            None => {
                return Vec::new();
            },
        };
        self.display_range = w.display_range;
        let load = w.load_range;
        if load.end > self.loaded_rows.len() {
            self.loaded_rows.resize(load.end);
        }
        let ghost g = self.loaded_rows@;
        let missing = self.loaded_rows.missing_range(load);
        let missing = match missing {
            Some(m) => m,
            None => {
                return Vec::new();
            },
        };
        let ghost m = missing;
        self.loaded_rows.write_loading(missing.start..missing.end);
        let ranges = split_missing_range(missing, self.chunk_size);
        let mut requests: Vec<LoadRequest> = Vec::new();
        let mut i: usize = 0;
        while i < ranges.len()
            invariant
                0 <= i <= ranges@.len(),
                requests@.len() == i,
                forall|k: int|
                    0 <= k < i ==> (#[trigger] requests@[k]).range == ranges@[k]
                        && requests@[k].reload_count == self.reload_count && requests@[k].row_count
                        == self.row_count,
            decreases ranges@.len() - i,
        {
            requests.push(
                LoadRequest {
                    range: ranges[i].start..ranges[i].end,
                    reload_count: self.reload_count,
                    row_count: self.row_count,
                },
            );
            i = i + 1;
        }
        proof {
            assert(request_ranges(requests@) =~= ranges@);
            let planned = load_window(
                first_visible as int,
                visible_row_count as int,
                old(self).row_count,
                old(self).chunk_size,
                old(self).display_strategy.page_rows() is Some,
            );
            assert(planned == (load.start as int, load.end as int));
            assert(grown(old(self).loaded_rows@, planned.1 as nat) == g);
            assert(is_missing_range(g, planned.0, planned.1, Some(m)));
            assert(self.loaded_rows@ == marked_loading(g, m));
        }
        requests
    }

    /// Hands back the outcome of the fetch `request`. A result issued before the last clear
    /// is dropped and changes nothing; the result says whether it was written.
    ///
    /// Otherwise a successful load that returned fewer rows than asked for first sets the
    /// row count (see `revealed_row_count`), and then the outcome is written into the cache.
    pub fn apply_load_result(
        &mut self,
        request: &LoadRequest,
        result: Result<(Vec<Row>, Range<usize>), String>,
    ) -> (written_back: bool)
        requires
            old(self).wf(),
            result matches Ok((_, r)) ==> r.start <= r.end && old(self).count_fits(r.end),
        ensures
            final(self).wf(),
            written_back == (request.reload_count == old(self).reload_count),
            !written_back ==> *final(self) == *old(self),
            written_back ==> {
                let before = match revealed_row_count(*request, result) {
                    Some(n) => resized(old(self).loaded_rows@, n as nat),
                    None => old(self).loaded_rows@,
                };
                &&& final(self).loaded_rows@ == written(before, result, request.range)
                &&& final(self).row_count == match revealed_row_count(*request, result) {
                    Some(n) => Some(n),
                    None => old(self).row_count,
                }
                &&& final(self).reload_count == old(self).reload_count
                &&& final(self).sorting == old(self).sorting
                &&& final(self).selection == old(self).selection
            },
    {
        if request.reload_count != self.reload_count {
            return false;
        }
        let mut revealed: Option<usize> = None;
        if let Ok((_, loaded)) = &result {
            if loaded.end < request.range.end {
                match request.row_count {
                    Some(n) => {
                        if loaded.end < n {
                            revealed = Some(loaded.end);
                        }
                    },
                    None => {
                        revealed = Some(loaded.end);
                    },
                }
            }
        }
        if let Some(n) = revealed {
            self.set_known_row_count(n);
        }
        self.loaded_rows.write_loaded(result, request.range.start..request.range.end);
        true
    }
}

} // verus!
