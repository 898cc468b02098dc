use crate::display_strategy::DisplayStrategy;
use crate::loaded_rows::RowState;
use std::ops::Range;
use vstd::prelude::*;

verus! {

/// The most rows that a window spans.
pub const MAX_DISPLAY_ROW_COUNT: usize = 500;

/// The fewest rows that count as visible, so that a table that has not been measured yet
/// still loads something.
pub const MIN_VISIBLE_ROW_COUNT: usize = 20;

/// The rows to have loaded, and the rows to render.
pub struct DisplayWindow {
    pub load_range: Range<usize>,
    pub display_range: Range<usize>,
}

pub open spec fn min_int(a: int, b: int) -> int {
    if a < b {
        a
    } else {
        b
    }
}

/// `x` rounded down to a multiple of `c`.
pub open spec fn round_down(x: int, c: int) -> int {
    (x / c) * c
}

/// `x` rounded up to a multiple of `c`.
pub open spec fn round_up(x: int, c: int) -> int {
    ((x + c - 1) / c) * c
}

/// The rows around `visible` rows from `first` on: twice as many before them and five times
/// as many from `first` on, within the known row count, and spanning at most
/// `MAX_DISPLAY_ROW_COUNT` rows unless `paginated`.
pub open spec fn base_window(
    first: int,
    visible: int,
    row_count: Option<usize>,
    paginated: bool,
) -> (int, int) {
    let v = min_int(visible, MAX_DISPLAY_ROW_COUNT as int);
    let s0 = if first > 2 * v {
        first - 2 * v
    } else {
        0
    };
    let e0 = first + 5 * v;
    let e1 = match row_count {
        Some(n) => min_int(e0, n as int),
        None => e0,
    };
    let s1 = min_int(s0, e1);
    let e2 = if paginated {
        e1
    } else {
        min_int(e1, s1 + MAX_DISPLAY_ROW_COUNT)
    };
    (s1, e2)
}

/// A window widened to whole chunks, yet not past the known row count.
pub open spec fn aligned_window(
    w: (int, int),
    row_count: Option<usize>,
    chunk_size: Option<usize>,
) -> (int, int) {
    let (s, e) = match chunk_size {
        Some(c) => (round_down(w.0, c as int), round_up(w.1, c as int)),
        None => w,
    };
    let e2 = match row_count {
        Some(n) => min_int(e, n as int),
        None => e,
    };
    (s, e2)
}

/// The rows to have loaded for `visible` rows from `first` on.
pub open spec fn load_window(
    first: int,
    visible: int,
    row_count: Option<usize>,
    chunk_size: Option<usize>,
    paginated: bool,
) -> (int, int) {
    aligned_window(base_window(first, visible, row_count, paginated), row_count, chunk_size)
}

/// The rows to render: the whole load window, or under pagination the page from `first`
/// on, within the load window's end.
pub open spec fn display_window(
    first: int,
    load: (int, int),
    page_rows: Option<usize>,
) -> (int, int) {
    match page_rows {
        Some(p) => (min_int(first, load.1), min_int(first + p, load.1)),
        None => load,
    }
}

/// The chunk size is positive, and the window's arithmetic, with its chunks, stays within
/// `usize`.
pub open spec fn window_fits(first: usize, chunk_size: Option<usize>) -> bool {
    &&& chunk_size matches Some(c) ==> c > 0
    &&& first + 5 * MAX_DISPLAY_ROW_COUNT + 2 * match chunk_size {
        Some(c) => c as int,
        None => 0,
    } <= usize::MAX
}

proof fn lemma_round(x: int, c: int)
    requires
        x >= 0,
        c > 0,
    ensures
        0 <= round_down(x, c) <= x,
        x <= round_up(x, c) <= x + c - 1,
{
    vstd::arithmetic::div_mod::lemma_fundamental_div_mod(x, c);
    vstd::arithmetic::div_mod::lemma_fundamental_div_mod(x + c - 1, c);
    vstd::arithmetic::mul::lemma_mul_is_commutative(x / c, c);
    vstd::arithmetic::mul::lemma_mul_is_commutative((x + c - 1) / c, c);
    vstd::arithmetic::div_mod::lemma_div_pos_is_pos(x, c);
    assert(0 <= (x / c) * c) by (nonlinear_arith)
        requires
            x / c >= 0,
            c > 0,
    ;
}

fn min_usize(a: usize, b: usize) -> (r: usize)
    ensures
        r == min_int(a as int, b as int),
{
    if a < b {
        a
    } else {
        b
    }
}

fn base_range(first: usize, visible: usize, row_count: Option<usize>, paginated: bool) -> (r: (
    usize,
    usize,
))
    requires
        0 < visible <= MAX_DISPLAY_ROW_COUNT,
        first + 5 * MAX_DISPLAY_ROW_COUNT <= usize::MAX,
    ensures
        (r.0 as int, r.1 as int) == base_window(first as int, visible as int, row_count, paginated),
        r.0 <= r.1 <= first + 5 * MAX_DISPLAY_ROW_COUNT,
        row_count matches Some(n) ==> r.1 <= n,
{
    let s0 = if first > 2 * visible {
        first - 2 * visible
    } else {
        0
    };
    let e0 = first + 5 * visible;
    let e1 = match row_count {
        Some(n) => min_usize(e0, n),
        None => e0,
    };
    let s1 = min_usize(s0, e1);
    let e2 = if paginated {
        e1
    } else {
        min_usize(e1, s1 + MAX_DISPLAY_ROW_COUNT)
    };
    (s1, e2)
}

fn align_range(s: usize, e: usize, row_count: Option<usize>, chunk_size: Option<usize>) -> (r: (
    usize,
    usize,
))
    requires
        s <= e,
        row_count matches Some(n) ==> e <= n,
        chunk_size matches Some(c) ==> c > 0 && e + c <= usize::MAX,
    ensures
        (r.0 as int, r.1 as int) == aligned_window((s as int, e as int), row_count, chunk_size),
        r.0 <= r.1,
        row_count matches Some(n) ==> r.1 <= n,
        r.1 <= e + match chunk_size {
            Some(c) => c as int,
            None => 0,
        },
{
    let (s3, e3) = match chunk_size {
        Some(c) => {
            proof {
                lemma_round(s as int, c as int);
                lemma_round(e as int, c as int);
            }
            (s / c * c, (e + c - 1) / c * c)
        },
        None => (s, e),
    };
    let e4 = match row_count {
        Some(n) => min_usize(e3, n),
        None => e3,
    };
    (s3, e4)
}

/// The window of rows to load and to render for `visible_row_count` rows visible from
/// `first_visible` on; `None` when no row is visible.
pub fn compute_window(
    first_visible: usize,
    visible_row_count: usize,
    row_count: Option<usize>,
    chunk_size: Option<usize>,
    strategy: &DisplayStrategy,
) -> (r: Option<DisplayWindow>)
    requires
        window_fits(first_visible, chunk_size),
    ensures
        visible_row_count == 0 <==> r is None,
        r matches Some(w) ==> {
            let load = load_window(
                first_visible as int,
                visible_row_count as int,
                row_count,
                chunk_size,
                strategy.page_rows() is Some,
            );
            &&& load == (w.load_range.start as int, w.load_range.end as int)
            &&& display_window(first_visible as int, load, strategy.page_rows()) == (
                w.display_range.start as int,
                w.display_range.end as int,
            )
            &&& w.load_range.start <= w.load_range.end
            &&& w.display_range.start <= w.display_range.end <= w.load_range.end
            &&& row_count matches Some(n) ==> w.load_range.end <= n
            &&& w.load_range.end <= first_visible + 5 * MAX_DISPLAY_ROW_COUNT + match chunk_size {
                Some(c) => c as int,
                None => 0,
            }
        },
{
    let visible = if visible_row_count < MAX_DISPLAY_ROW_COUNT {
        visible_row_count
    } else {
        MAX_DISPLAY_ROW_COUNT
    };
    if visible == 0 {
        return None;
    }
    let page_rows = match strategy {
        DisplayStrategy::Pagination { row_count, .. } => Some(*row_count),
        _ => None,
    };
    let (s1, e2) = base_range(first_visible, visible, row_count, page_rows.is_some());
    let (s3, e4) = align_range(s1, e2, row_count, chunk_size);
    let display_range = match page_rows {
        Some(p) => {
            let start = if first_visible < e4 {
                first_visible
            } else {
                e4
            };
            let end = if first_visible < e4 && p < e4 - first_visible {
                first_visible + p
            } else {
                e4
            };
            start..end
        },
        None => s3..e4,
    };
    Some(DisplayWindow { load_range: s3..e4, display_range })
}

/// The chunk-aligned ranges that cover `missing`: every chunk of size `c` from the one that
/// holds `missing.start` to the one that holds `missing.end - 1`.
pub open spec fn chunk_ranges(missing: Range<usize>, c: int) -> Seq<Range<usize>> {
    let first = missing.start as int / c;
    let n = (missing.end as int + c - 1) / c - first;
    Seq::new(
        n as nat,
        |k: int| ((first + k) * c) as usize..((first + k + 1) * c) as usize,
    )
}

/// The ranges to fetch for `missing`: the chunks that cover it, or the range itself when
/// the source takes any range.
pub open spec fn fetch_ranges(missing: Range<usize>, chunk_size: Option<usize>) -> Seq<
    Range<usize>,
> {
    match chunk_size {
        Some(c) => chunk_ranges(missing, c as int),
        None => seq![missing],
    }
}

/// Splits `missing` into the ranges to fetch; see `fetch_ranges`.
pub fn split_missing_range(missing: Range<usize>, chunk_size: Option<usize>) -> (r: Vec<
    Range<usize>,
>)
    requires
        missing.start < missing.end,
        chunk_size matches Some(c) ==> c > 0 && missing.end + c <= usize::MAX,
    ensures
        r@ == fetch_ranges(missing, chunk_size),
        r@.len() > 0,
{
    match chunk_size {
        None => vec![missing],
        Some(c) => {
            let first = missing.start / c;
            let mut out: Vec<Range<usize>> = Vec::new();
            proof {
                lemma_round(missing.start as int, c as int);
            }
            let mut start = first * c;
            let ghost ci = c as int;
            let ghost me = missing.end as int;
            let ghost top = (me + ci - 1) / ci;
            let ghost n = top - first;
            proof {
                lemma_round(missing.start as int, ci);
                lemma_round(me, ci);
                vstd::arithmetic::div_mod::lemma_div_is_ordered(
                    missing.start as int,
                    me + ci - 1,
                    ci,
                );
            }
            while start < missing.end
                invariant
                    ci == c as int,
                    me == missing.end as int,
                    ci > 0,
                    me + ci <= usize::MAX,
                    missing.start < missing.end,
                    first == missing.start / c,
                    top == (me + ci - 1) / ci,
                    top * ci <= me + ci - 1,
                    n == top - first,
                    n > 0,
                    start == (first + out@.len()) * ci,
                    out@.len() <= n,
                    out@.len() < n <==> start < missing.end,
                    forall|k: int|
                        0 <= k < out@.len() ==> #[trigger] out@[k] == (((first + k) * ci) as usize..((
                        first + k + 1) * ci) as usize),
                decreases n - out@.len(),
            {
                let ghost k = out@.len() as int;
                proof {
                    assert((first + k + 1) * ci == (first + k) * ci + ci) by (nonlinear_arith);
                }
                out.push(start..start + c);
                start = start + c;
                proof {
                    let q = first + out@.len();
                    assert(start == q * ci);
                    if out@.len() < n {
                        assert((q + 1) * ci <= top * ci) by (nonlinear_arith)
                            requires
                                q + 1 <= top,
                                ci > 0,
                        ;
                        assert(q * ci < me) by (nonlinear_arith)
                            requires
                                (q + 1) * ci <= top * ci,
                                top * ci <= me + ci - 1,
                        ;
                    } else {
                        assert(q * ci >= top * ci) by (nonlinear_arith)
                            requires
                                q >= top,
                                ci > 0,
                        ;
                        assert(top * ci >= me) by {
                            lemma_round(me, ci);
                        }
                    }
                }
            }
            assert(out@ =~= chunk_ranges(missing, c as int));
            out
        },
    }
}

impl DisplayStrategy {
    /// The index of the first row to show: that of the current page under pagination, else
    /// the number of rows scrolled past.
    pub fn first_visible_row_index(&self, scrolled_rows: usize) -> (r: usize)
        requires
            *self matches DisplayStrategy::Pagination { row_count, controller } ==> controller.current_page
                * row_count <= usize::MAX,
        ensures
            r == match *self {
                DisplayStrategy::Pagination { row_count, controller } => (controller.current_page
                    * row_count) as usize,
                _ => scrolled_rows,
            },
    {
        match self {
            DisplayStrategy::Pagination { row_count, controller } => controller.current_page
                * *row_count,
            _ => scrolled_rows,
        }
    }

    /// The number of rows to treat as visible: a page under pagination, else the rows that
    /// fit in the viewport but at least `MIN_VISIBLE_ROW_COUNT`.
    pub fn visible_row_count(&self, viewport_rows: usize) -> (r: usize)
        ensures
            r == match *self {
                DisplayStrategy::Pagination { row_count, .. } => row_count,
                _ => if viewport_rows < MIN_VISIBLE_ROW_COUNT {
                    MIN_VISIBLE_ROW_COUNT
                } else {
                    viewport_rows
                },
            },
    {
        match self {
            DisplayStrategy::Pagination { row_count, .. } => *row_count,
            _ => if viewport_rows < MIN_VISIBLE_ROW_COUNT {
                MIN_VISIBLE_ROW_COUNT
            } else {
                viewport_rows
            },
        }
    }
}

/// The row is loaded or loading: it has, or will have, its own height on screen.
pub open spec fn is_filled<T>(s: RowState<T>) -> bool {
    s is Loaded || s is Loading
}

/// `(a, b)` is the first run of loaded or loading rows in `[start, end)`, from its first row
/// `a` to its last row `b`.
pub open spec fn is_first_filled_run<T>(
    s: Seq<RowState<T>>,
    start: int,
    end: int,
    a: int,
    b: int,
) -> bool {
    &&& start <= a <= b < end
    &&& forall|i: int| start <= i < a ==> !is_filled(#[trigger] s[i])
    &&& forall|i: int| a <= i <= b ==> is_filled(#[trigger] s[i])
    &&& (b + 1 == end || !is_filled(s[b + 1]))
}

/// The first and last row of the first run of loaded or loading rows in `range`, from
/// which the height of a row can be measured; `None` when there is no such run of two rows
/// or more.
pub fn filled_run<T>(rows: &crate::loaded_rows::LoadedRows<T>, range: Range<usize>) -> (r: Option<
    (usize, usize),
>)
    requires
        range.end <= rows@.len(),
    ensures
        match r {
            Some((a, b)) => a < b && is_first_filled_run(
                rows@,
                range.start as int,
                range.end as int,
                a as int,
                b as int,
            ),
            None => forall|a: int, b: int|
                #![trigger is_first_filled_run(rows@, range.start as int, range.end as int, a, b)]
                is_first_filled_run(rows@, range.start as int, range.end as int, a, b) ==> a == b,
        },
{
    let mut a = range.start;
    while a < range.end && !matches!(rows.get(a), RowState::Loaded(_) | RowState::Loading)
        invariant
            range.start <= a,
            a <= range.end || a == range.start,
            range.end <= rows@.len(),
            forall|i: int| range.start <= i < a ==> !is_filled(#[trigger] rows@[i]),
        decreases range.end - a,
    {
        a = a + 1;
    }
    if a >= range.end {
        assert forall|x: int, y: int|
            #![trigger is_first_filled_run(rows@, range.start as int, range.end as int, x, y)]
            is_first_filled_run(rows@, range.start as int, range.end as int, x, y) implies x
                == y by {
            assert(is_filled(rows@[x]));
        }
        return None;
    }
    let mut b = a;
    while b + 1 < range.end && matches!(rows.get(b + 1), RowState::Loaded(_) | RowState::Loading)
        invariant
            range.start <= a <= b < range.end <= rows@.len(),
            forall|i: int| a <= i <= b ==> is_filled(#[trigger] rows@[i]),
        decreases range.end - b,
    {
        b = b + 1;
    }
    if a == b {
        assert forall|x: int, y: int|
            #![trigger is_first_filled_run(rows@, range.start as int, range.end as int, x, y)]
            is_first_filled_run(rows@, range.start as int, range.end as int, x, y) implies x
                == y by {
            assert(is_filled(rows@[x]));
            assert(is_filled(rows@[a as int]));
            if x < a {
                assert(!is_filled(rows@[x]));
            }
            assert(x == a);
            if y > x {
                assert(is_filled(rows@[x + 1]));
            }
        }
        None
    } else {
        Some((a, b))
    }
}

} // verus!
