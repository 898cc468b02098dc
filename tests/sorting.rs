use std::collections::VecDeque;
use struct_table::sorting::{
    get_sorting_for_column, sorting_to_sql, SortingMode, TableHeadEvent,
};
use struct_table::ColumnSort;

fn click(mode: SortingMode, sorting: &mut VecDeque<(usize, ColumnSort)>, index: usize) {
    mode.update_sorting_from_event(sorting, TableHeadEvent { index });
}

fn list(sorting: &VecDeque<(usize, ColumnSort)>) -> Vec<(usize, ColumnSort)> {
    sorting.iter().copied().collect()
}

#[test]
fn three_clicks_cycle_and_a_fourth_starts_again() {
    for mode in [SortingMode::SingleColumn, SortingMode::MultiColumn] {
        let mut sorting = VecDeque::new();
        click(mode, &mut sorting, 2);
        assert_eq!(list(&sorting), vec![(2, ColumnSort::Ascending)]);
        click(mode, &mut sorting, 2);
        assert_eq!(list(&sorting), vec![(2, ColumnSort::Descending)]);
        click(mode, &mut sorting, 2);
        assert_eq!(list(&sorting), vec![]);
        click(mode, &mut sorting, 2);
        assert_eq!(list(&sorting), vec![(2, ColumnSort::Ascending)]);
    }
}

#[test]
fn single_column_mode_keeps_only_the_last_column() {
    let mut sorting = VecDeque::new();
    click(SortingMode::SingleColumn, &mut sorting, 0);
    click(SortingMode::SingleColumn, &mut sorting, 1);
    assert_eq!(list(&sorting), vec![(1, ColumnSort::Ascending)]);
}

#[test]
fn multi_column_mode_puts_the_clicked_column_first() {
    let mut sorting = VecDeque::new();
    click(SortingMode::MultiColumn, &mut sorting, 0);
    click(SortingMode::MultiColumn, &mut sorting, 1);
    assert_eq!(
        list(&sorting),
        vec![(1, ColumnSort::Ascending), (0, ColumnSort::Ascending)]
    );
    click(SortingMode::MultiColumn, &mut sorting, 0);
    assert_eq!(
        list(&sorting),
        vec![(0, ColumnSort::Descending), (1, ColumnSort::Ascending)]
    );
    click(SortingMode::MultiColumn, &mut sorting, 0);
    assert_eq!(list(&sorting), vec![(1, ColumnSort::Ascending)]);
}

#[test]
fn unsorted_entries_are_pruned() {
    let mut sorting: VecDeque<(usize, ColumnSort)> =
        VecDeque::from(vec![(4, ColumnSort::Unsorted), (5, ColumnSort::Descending)]);
    click(SortingMode::MultiColumn, &mut sorting, 6);
    assert_eq!(
        list(&sorting),
        vec![(6, ColumnSort::Ascending), (5, ColumnSort::Descending)]
    );
}

#[test]
fn default_mode_is_multi_column() {
    assert_eq!(SortingMode::default(), SortingMode::MultiColumn);
}

#[test]
fn sorting_for_a_column() {
    let sorting = VecDeque::from(vec![(3, ColumnSort::Descending), (1, ColumnSort::Ascending)]);
    assert_eq!(get_sorting_for_column(1, &sorting), ColumnSort::Ascending);
    assert_eq!(get_sorting_for_column(3, &sorting), ColumnSort::Descending);
    assert_eq!(get_sorting_for_column(0, &sorting), ColumnSort::Unsorted);
}

#[test]
fn column_sort_classes_and_sql() {
    assert_eq!(ColumnSort::Ascending.as_class(), "sort-asc");
    assert_eq!(ColumnSort::Descending.as_class(), "sort-desc");
    assert_eq!(ColumnSort::Unsorted.as_class(), "");
    assert_eq!(ColumnSort::Ascending.as_sql(), Some("ASC"));
    assert_eq!(ColumnSort::Descending.as_sql(), Some("DESC"));
    assert_eq!(ColumnSort::Unsorted.as_sql(), None);
    assert_eq!(ColumnSort::Unsorted.cycle(), ColumnSort::Ascending);
    assert_eq!(ColumnSort::Descending.cycle(), ColumnSort::Unsorted);
}

#[test]
fn order_by_clause() {
    let names = ["name", "age", "city"];
    let sorting = VecDeque::from(vec![
        (1, ColumnSort::Descending),
        (2, ColumnSort::Unsorted),
        (0, ColumnSort::Ascending),
    ]);
    assert_eq!(
        sorting_to_sql(&sorting, &names),
        Some("ORDER BY age DESC, name ASC".to_string())
    );
    let one = VecDeque::from(vec![(2, ColumnSort::Ascending)]);
    assert_eq!(sorting_to_sql(&one, &names), Some("ORDER BY city ASC".to_string()));
    let none = VecDeque::from(vec![(2, ColumnSort::Unsorted)]);
    assert_eq!(sorting_to_sql(&none, &names), None);
    assert_eq!(sorting_to_sql(&VecDeque::new(), &names), None);
}
