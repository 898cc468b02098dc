use crate::data_storage::{clamped_end, clamped_start};
use std::ops::Range;
use vstd::prelude::*;

verus! {

/// Copies `vec[range]`, with `range` clamped to the length of `vec`, and returns the copy with
/// the range that it covers. An empty `vec` gives no rows and the range `0..0`.
pub fn get_vec_range_clamped<T: Clone>(vec: &[T], range: Range<usize>) -> (r: (
    Vec<T>,
    Range<usize>,
))
    requires
        range.start <= range.end,
    ensures
        vec@.len() == 0 ==> r.0@.len() == 0 && r.1 == (0usize..0usize),
        vec@.len() > 0 ==> {
            &&& r.1.start == clamped_start(vec@.len() as int, range)
            &&& r.1.end == clamped_end(vec@.len() as int, range)
            &&& r.0@.len() == r.1.end - r.1.start
            &&& forall|k: int|
                0 <= k < r.0@.len() ==> cloned(vec@[r.1.start + k], #[trigger] r.0@[k])
        },
{
    if vec.len() == 0 {
        return (Vec::new(), 0..0);
    }
    let start = if range.start < vec.len() - 1 {
        range.start
    } else {
        vec.len() - 1
    };
    let end = if range.end < vec.len() {
        range.end
    } else {
        vec.len()
    };
    let mut out: Vec<T> = Vec::new();
    let mut i = start;
    while i < end
        invariant
            start <= i <= end || i == start,
            start < vec@.len(),
            end <= vec@.len(),
            out@.len() == i - start,
            forall|k: int| 0 <= k < out@.len() ==> cloned(vec@[start + k], #[trigger] out@[k]),
        decreases end - i,
    {
        out.push(vec[i].clone());
        i = i + 1;
    }
    (out, start..end)
}

/// A request that a paginated source can serve: one whole page, aligned to the page size.
pub open spec fn is_page_request(range: Range<usize>, page_row_count: usize) -> bool {
    &&& page_row_count > 0
    &&& range.start % page_row_count == 0
    &&& range.end - range.start == page_row_count
}

/// The index of the page that `range` asks for. The loading logic only asks a paginated source
/// for whole, aligned pages.
pub fn page_index(range: &Range<usize>, page_row_count: usize) -> (r: usize)
    requires
        is_page_request(*range, page_row_count),
    ensures
        r == range.start / page_row_count,
        r * page_row_count == range.start,
{
    let r = range.start / page_row_count;
    proof {
        vstd::arithmetic::div_mod::lemma_fundamental_div_mod(
            range.start as int,
            page_row_count as int,
        );
        vstd::arithmetic::mul::lemma_mul_is_commutative(r as int, page_row_count as int);
    }
    r
}

/// The rows of one page, with the range that they cover: from the start of the request, one
/// index per row. A page shorter than the page size marks the end of the data.
pub fn page_result<Row>(range: &Range<usize>, rows: Vec<Row>) -> (r: (Vec<Row>, Range<usize>))
    requires
        range.start + rows@.len() <= usize::MAX,
    ensures
        r.0 == rows,
        r.1 == (range.start..(range.start + rows@.len()) as usize),
{
    let len = rows.len();
    (rows, range.start..range.start + len)
}

/// The number of rows of a paginated source whose number of pages is `page_count`.
pub fn row_count_from_pages(page_count: Option<usize>, page_row_count: usize) -> (r: Option<usize>)
    requires
        page_count matches Some(n) ==> n * page_row_count <= usize::MAX,
    ensures
        match page_count {
            Some(n) => r == Some((n * page_row_count) as usize),
            None => r is None,
        },
{
    match page_count {
        Some(n) => Some(n * page_row_count),
        None => None,
    }
}

} // verus!
