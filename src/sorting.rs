use crate::column_sort::ColumnSort;
use std::collections::VecDeque;
use vstd::prelude::*;

verus! {

/// How many columns the table can be sorted by at a time.
#[derive(Clone, Copy, Debug, PartialEq, Eq, Structural)]
pub enum SortingMode {
    /// The table is sorted by one column at most.
    SingleColumn,
    /// The table is sorted by several columns, ordered by priority.
    MultiColumn,
}

impl Default for SortingMode {
    fn default() -> (r: SortingMode)
        ensures
            r == SortingMode::MultiColumn,
    {
        SortingMode::MultiColumn
    }
}

/// A click on the head of the column with this index.
#[derive(Clone, Copy, Debug, PartialEq, Eq, Structural)]
pub struct TableHeadEvent {
    pub index: usize,
}

/// The direction in which `col` is sorted: that of its first entry, or unsorted.
pub open spec fn sort_of(s: Seq<(usize, ColumnSort)>, col: usize) -> ColumnSort
    decreases s.len(),
{
    if s.len() == 0 {
        ColumnSort::Unsorted
    } else if s[0].0 == col {
        s[0].1
    } else {
        sort_of(s.drop_first(), col)
    }
}

/// The entries of `s`, in order, that are neither about `col` nor unsorted.
pub open spec fn kept(s: Seq<(usize, ColumnSort)>, col: usize) -> Seq<(usize, ColumnSort)>
    decreases s.len(),
{
    if s.len() == 0 {
        s
    } else {
        let rest = kept(s.drop_last(), col);
        let e = s.last();
        if e.0 != col && e.1 != ColumnSort::Unsorted {
            rest.push(e)
        } else {
            rest
        }
    }
}

/// The sorting after a click on the head of `col`: the column's direction moves one step
/// along its cycle; a sorted column goes first, an unsorted one leaves the list, and the
/// other entries keep their order. In single-column mode only the first entry stays.
pub open spec fn sorting_after_click(
    s: Seq<(usize, ColumnSort)>,
    col: usize,
    mode: SortingMode,
) -> Seq<(usize, ColumnSort)> {
    let d = sort_of(s, col).cycled();
    let rest = kept(s, col);
    let full = if d != ColumnSort::Unsorted {
        seq![(col, d)] + rest
    } else {
        rest
    };
    if mode == SortingMode::SingleColumn && full.len() > 1 {
        full.take(1)
    } else {
        full
    }
}

/// No column has two entries.
pub open spec fn distinct_columns(s: Seq<(usize, ColumnSort)>) -> bool {
    forall|i: int, j: int| 0 <= i < j < s.len() ==> #[trigger] s[i].0 != #[trigger] s[j].0
}

/// No entry is unsorted.
pub open spec fn all_sorted(s: Seq<(usize, ColumnSort)>) -> bool {
    forall|i: int| 0 <= i < s.len() ==> (#[trigger] s[i]).1 != ColumnSort::Unsorted
}

proof fn lemma_sort_of_skip(s: Seq<(usize, ColumnSort)>, col: usize, i: int)
    requires
        0 <= i < s.len(),
        s[i].0 != col,
    ensures
        sort_of(s.skip(i), col) == sort_of(s.skip(i + 1), col),
{
    assert(s.skip(i).drop_first() =~= s.skip(i + 1));
}

proof fn lemma_kept_from(s: Seq<(usize, ColumnSort)>, col: usize)
    ensures
        forall|k: int|
            0 <= k < kept(s, col).len() ==> exists|j: int|
                0 <= j < s.len() && s[j] == #[trigger] kept(s, col)[k],
        forall|k: int|
            0 <= k < kept(s, col).len() ==> (#[trigger] kept(s, col)[k]).0 != col
                && kept(s, col)[k].1 != ColumnSort::Unsorted,
        kept(s, col).len() <= s.len(),
    decreases s.len(),
{
    if s.len() > 0 {
        lemma_kept_from(s.drop_last(), col);
        let rest = kept(s.drop_last(), col);
        assert forall|k: int| 0 <= k < kept(s, col).len() implies exists|j: int|
            0 <= j < s.len() && s[j] == #[trigger] kept(s, col)[k] by {
            if k < rest.len() {
                let j = choose|j: int| 0 <= j < s.drop_last().len() && s.drop_last()[j] == rest[k];
                assert(s[j] == kept(s, col)[k]);
            } else {
                assert(s[s.len() - 1] == kept(s, col)[k]);
            }
        }
    }
}

proof fn lemma_kept_distinct(s: Seq<(usize, ColumnSort)>, col: usize)
    requires
        distinct_columns(s),
    ensures
        distinct_columns(kept(s, col)),
    decreases s.len(),
{
    if s.len() > 0 {
        let p = s.drop_last();
        assert(distinct_columns(p));
        lemma_kept_distinct(p, col);
        lemma_kept_from(p, col);
        let rest = kept(p, col);
        let e = s.last();
        if e.0 != col && e.1 != ColumnSort::Unsorted {
            assert forall|k: int| 0 <= k < rest.len() implies rest[k].0 != e.0 by {
                let j = choose|j: int| 0 <= j < p.len() && p[j] == #[trigger] rest[k];
                assert(s[j].0 != s[s.len() - 1].0);
            }
            let r = rest.push(e);
            assert forall|i: int, j: int| 0 <= i < j < r.len() implies #[trigger] r[i].0
                != #[trigger] r[j].0 by {
                if j == r.len() - 1 {
                    assert(r[i] == rest[i]);
                } else {
                    assert(r[i] == rest[i] && r[j] == rest[j]);
                }
            }
        }
    }
}

/// A click keeps the sorting free of repeated columns and of unsorted entries.
pub proof fn lemma_click_keeps_sorting_valid(
    s: Seq<(usize, ColumnSort)>,
    col: usize,
    mode: SortingMode,
)
    requires
        distinct_columns(s),
    ensures
        distinct_columns(sorting_after_click(s, col, mode)),
        all_sorted(sorting_after_click(s, col, mode)),
{
    lemma_kept_from(s, col);
    lemma_kept_distinct(s, col);
    let d = sort_of(s, col).cycled();
    let rest = kept(s, col);
    let full = if d != ColumnSort::Unsorted {
        seq![(col, d)] + rest
    } else {
        rest
    };
    assert(distinct_columns(full) && all_sorted(full)) by {
        if d != ColumnSort::Unsorted {
            assert forall|i: int, j: int| 0 <= i < j < full.len() implies #[trigger] full[i].0
                != #[trigger] full[j].0 by {
                assert(full[j] == rest[j - 1]);
                if i > 0 {
                    assert(full[i] == rest[i - 1]);
                }
            }
            assert forall|i: int| 0 <= i < full.len() implies (#[trigger] full[i]).1
                != ColumnSort::Unsorted by {
                if i > 0 {
                    assert(full[i] == rest[i - 1]);
                }
            }
        }
    }
}

/// From no sorting, clicks on one column's head sort it ascending, then descending, then
/// not at all, and the fourth click starts the cycle again.
pub proof fn lemma_click_cycle(col: usize, mode: SortingMode)
    ensures
        sorting_after_click(Seq::empty(), col, mode) == seq![(col, ColumnSort::Ascending)],
        sorting_after_click(seq![(col, ColumnSort::Ascending)], col, mode) == seq![
            (col, ColumnSort::Descending),
        ],
        sorting_after_click(seq![(col, ColumnSort::Descending)], col, mode) == Seq::<
            (usize, ColumnSort),
        >::empty(),
{
    let e = Seq::<(usize, ColumnSort)>::empty();
    assert(kept(e, col) == e);
    let a = seq![(col, ColumnSort::Ascending)];
    assert(a.drop_last() =~= e);
    assert(kept(a, col) == e);
    assert(sort_of(a, col) == ColumnSort::Ascending);
    assert(seq![(col, ColumnSort::Ascending)] =~= seq![(col, ColumnSort::Ascending)] + e);
    let d = seq![(col, ColumnSort::Descending)];
    assert(d.drop_last() =~= e);
    assert(kept(d, col) == e);
    assert(sort_of(d, col) == ColumnSort::Descending);
    assert(seq![(col, ColumnSort::Descending)] =~= seq![(col, ColumnSort::Descending)] + e);
}

/// In single-column mode, once a click has sorted column `a`, a click on another column
/// `b` leaves `b`, ascending, as the only entry.
pub proof fn lemma_single_column_replaces(s: Seq<(usize, ColumnSort)>, a: usize, b: usize)
    requires
        a != b,
        sort_of(sorting_after_click(s, a, SortingMode::SingleColumn), a) != ColumnSort::Unsorted,
    ensures
        sorting_after_click(sorting_after_click(s, a, SortingMode::SingleColumn), b, SortingMode::SingleColumn)
            == seq![(b, ColumnSort::Ascending)],
{
    let s1 = sorting_after_click(s, a, SortingMode::SingleColumn);
    let d = sort_of(s, a).cycled();
    let rest = kept(s, a);
    let e = Seq::<(usize, ColumnSort)>::empty();
    assert(s1.len() <= 1);
    if d == ColumnSort::Unsorted {
        lemma_kept_from(s, a);
        if s1.len() == 1 {
            assert(s1[0] == rest[0]);
            assert(s1[0].0 != a);
            assert(s1.drop_first() =~= e);
            assert(sort_of(s1.drop_first(), a) == ColumnSort::Unsorted);
        }
        assert(false);
    }
    assert(s1 =~= seq![(a, d)]);
    assert(s1.drop_first() =~= e);
    assert(s1[0].0 == a);
    assert(sort_of(s1.drop_first(), b) == ColumnSort::Unsorted);
    assert(sort_of(s1, b) == ColumnSort::Unsorted);
    assert(s1.drop_last() =~= e);
    assert(kept(s1.drop_last(), b) == e);
    assert(kept(s1, b) =~= s1);
    let full = seq![(b, ColumnSort::Ascending)] + s1;
    assert(full.take(1) =~= seq![(b, ColumnSort::Ascending)]);
}

impl SortingMode {
    /// Updates `sorting` for a click on a column's head; see `sorting_after_click`.
    pub fn update_sorting_from_event(
        &self,
        sorting: &mut VecDeque<(usize, ColumnSort)>,
        event: TableHeadEvent,
    )
        ensures
            final(sorting)@ == sorting_after_click(old(sorting)@, event.index, *self),
    {
        let col = event.index;
        let ghost s = sorting@;
        let current = get_sorting_for_column(col, sorting);
        let sort = current.cycle();
        let mut rest: VecDeque<(usize, ColumnSort)> = VecDeque::new();
        let mut i: usize = 0;
        while i < sorting.len()
            invariant
                sorting@ == s,
                0 <= i <= s.len(),
                rest@ == kept(s.take(i as int), col),
            decreases s.len() - i,
        {
            let e = sorting[i];
            assert(s.take(i + 1).drop_last() =~= s.take(i as int));
            if e.0 != col && e.1 != ColumnSort::Unsorted {
                rest.push_back(e);
            }
            i = i + 1;
        }
        assert(s.take(s.len() as int) =~= s);
        if sort != ColumnSort::Unsorted {
            rest.push_front((col, sort));
        }
        if *self == SortingMode::SingleColumn {
            rest.truncate(1);
        }
        *sorting = rest;
        proof {
            let full = if sort != ColumnSort::Unsorted {
                seq![(col, sort)] + kept(s, col)
            } else {
                kept(s, col)
            };
            if *self == SortingMode::SingleColumn && full.len() > 1 {
                assert(full.subrange(0, 1) =~= full.take(1));
            }
        }
    }
}

/// The direction in which the column `col_index` is sorted; unsorted where it has no entry.
pub fn get_sorting_for_column(col_index: usize, sorting: &VecDeque<(usize, ColumnSort)>) -> (r:
    ColumnSort)
    ensures
        r == sort_of(sorting@, col_index),
{
    let ghost s = sorting@;
    let mut i: usize = 0;
    assert(s.skip(0) =~= s);
    while i < sorting.len()
        invariant
            sorting@ == s,
            0 <= i <= s.len(),
            sort_of(s, col_index) == sort_of(s.skip(i as int), col_index),
        decreases s.len() - i,
    {
        if sorting[i].0 == col_index {
            assert(s.skip(i as int)[0] == s[i as int]);
            return sorting[i].1;
        }
        proof {
            lemma_sort_of_skip(s, col_index, i as int);
        }
        i = i + 1;
    }
    assert(s.skip(i as int).len() == 0);
    ColumnSort::Unsorted
}

/// The SQL sort order of a direction; empty for an unsorted column.
pub open spec fn sql_order(d: ColumnSort) -> Seq<char> {
    match d {
        ColumnSort::Ascending => "ASC"@,
        ColumnSort::Descending => "DESC"@,
        ColumnSort::Unsorted => Seq::empty(),
    }
}

/// The `name ORDER` terms of the sorted entries of `s`, in order.
pub open spec fn sql_terms(s: Seq<(usize, ColumnSort)>, names: Seq<&str>) -> Seq<Seq<char>>
    decreases s.len(),
{
    if s.len() == 0 {
        Seq::empty()
    } else {
        let rest = sql_terms(s.drop_last(), names);
        let e = s.last();
        if e.1 != ColumnSort::Unsorted {
            rest.push(names[e.0 as int]@ + " "@ + sql_order(e.1))
        } else {
            rest
        }
    }
}

/// The terms joined by `", "`.
pub open spec fn joined(t: Seq<Seq<char>>) -> Seq<char>
    decreases t.len(),
{
    if t.len() == 0 {
        Seq::empty()
    } else if t.len() == 1 {
        t[0]
    } else {
        joined(t.drop_last()) + ", "@ + t.last()
    }
}

/// The `ORDER BY` clause for `sorting`, naming column `i` `col_names[i]`; `None` when no
/// column is sorted.
pub fn sorting_to_sql(sorting: &VecDeque<(usize, ColumnSort)>, col_names: &[&str]) -> (r: Option<
    String,
>)
    requires
        forall|k: int| 0 <= k < sorting@.len() ==> (#[trigger] sorting@[k]).0 < col_names@.len(),
    ensures
        sql_terms(sorting@, col_names@).len() == 0 ==> r is None,
        sql_terms(sorting@, col_names@).len() > 0 ==> (r matches Some(q) && q@ == "ORDER BY "@
            + joined(sql_terms(sorting@, col_names@))),
{
    let ghost s = sorting@;
    let ghost names = col_names@;
    let mut acc = String::new();
    let mut count: usize = 0;
    let mut i: usize = 0;
    while i < sorting.len()
        invariant
            sorting@ == s,
            col_names@ == names,
            0 <= i <= s.len(),
            forall|k: int| 0 <= k < s.len() ==> (#[trigger] s[k]).0 < names.len(),
            count <= i,
            count == sql_terms(s.take(i as int), names).len(),
            acc@ == joined(sql_terms(s.take(i as int), names)),
        decreases s.len() - i,
    {
        let (col, dir) = sorting[i];
        assert(s.take(i + 1).drop_last() =~= s.take(i as int));
        assert(s.take(i + 1).last() == s[i as int]);
        match dir.as_sql() {
            Some(order) => {
                if count > 0 {
                    acc = acc.concat(", ");
                }
                acc = acc.concat(col_names[col]);
                acc = acc.concat(" ");
                acc = acc.concat(order);
                count = count + 1;
                proof {
                    let t = sql_terms(s.take(i + 1), names);
                    assert(t.drop_last() == sql_terms(s.take(i as int), names));
                    if t.len() == 1 {
                        assert(acc@ =~= t[0]);
                    } else {
                        assert(acc@ =~= joined(t.drop_last()) + ", "@ + t.last());
                    }
                }
            },
            None => {},
        }
        i = i + 1;
    }
    assert(s.take(s.len() as int) =~= s);
    if count == 0 {
        return None;
    }
    let clause = String::from_str("ORDER BY ");
    Some(clause.concat(acc.as_str()))
}

} // verus!
