use vstd::prelude::*;

verus! {

/// Which page a paginated table shows, and how many pages there are once that is known.
pub struct PaginationController {
    /// The page shown; the first page is `0`.
    pub current_page: usize,
    /// The number of pages, once the number of rows is known.
    pub page_count: Option<usize>,
}

impl PaginationController {
    /// The first page, with the page count unknown.
    pub fn new() -> (r: PaginationController)
        ensures
            r.current_page == 0,
            r.page_count is None,
    {
        PaginationController { current_page: 0, page_count: None }
    }

    /// Goes to the next page.
    pub fn next(&mut self)
        requires
            old(self).current_page < usize::MAX,
        ensures
            final(self).current_page == old(self).current_page + 1,
            final(self).page_count == old(self).page_count,
    {
        self.current_page = self.current_page + 1;
    }

    /// Goes to the previous page; the first page stays.
    pub fn previous(&mut self)
        ensures
            final(self).current_page == if old(self).current_page == 0 {
                0
            } else {
                old(self).current_page - 1
            },
            final(self).page_count == old(self).page_count,
    {
        self.current_page = self.current_page.saturating_sub(1);
    }

    /// The number of pages, once the number of rows is known.
    pub fn page_count(&self) -> (r: Option<usize>)
        ensures
            r == self.page_count,
    {
        self.page_count
    }
}

impl Default for PaginationController {
    fn default() -> (r: PaginationController)
        ensures
            r.current_page == 0,
            r.page_count is None,
    {
        PaginationController::new()
    }
}

/// How the rows of a table are laid out on screen.
pub enum DisplayStrategy {
    /// Only the visible rows, with some more around them, are rendered, while the scroll
    /// bar spans all rows. Without a known row count this is the same as `InfiniteScroll`.
    Virtualization,
    /// The rows loaded so far are rendered, and more are loaded as the table scrolls.
    InfiniteScroll,
    /// One page of `row_count` rows is rendered at a time; the controller picks the page.
    Pagination { row_count: usize, controller: PaginationController },
}

impl Default for DisplayStrategy {
    fn default() -> (r: DisplayStrategy)
        ensures
            r is Virtualization,
    {
        DisplayStrategy::Virtualization
    }
}

impl DisplayStrategy {
    /// A page of pagination holds at least one row.
    pub open spec fn wf(&self) -> bool {
        *self matches DisplayStrategy::Pagination { row_count, .. } ==> row_count > 0
    }

    /// The number of rows on a page, under pagination.
    pub open spec fn page_rows(&self) -> Option<usize> {
        match self {
            DisplayStrategy::Pagination { row_count, .. } => Some(*row_count),
            _ => None,
        }
    }

    /// Records that the table holds `row_count` rows: under pagination the controller then
    /// counts `row_count / rows per page + 1` pages. Other strategies keep no count.
    pub fn set_row_count(&mut self, row_count: usize)
        requires
            old(self).wf(),
            *old(self) matches DisplayStrategy::Pagination { row_count: p, .. } ==> row_count / p
                < usize::MAX,
        ensures
            final(self).wf(),
            final(self).page_rows() == old(self).page_rows(),
            match *old(self) {
                DisplayStrategy::Pagination { row_count: p, controller } => {
                    *final(self) matches DisplayStrategy::Pagination { controller: c, .. } && c.current_page
                        == controller.current_page && c.page_count == Some(
                        (row_count / p + 1) as usize,
                    )
                },
                _ => *final(self) == *old(self),
            },
    {
        match self {
            DisplayStrategy::Pagination { row_count: page_row_count, controller } => {
                controller.page_count = Some(row_count / *page_row_count + 1);
            },
            _ => {},
        }
    }
}

} // verus!
