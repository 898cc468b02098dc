use std::collections::HashSet;
use std::ops::Range;
use struct_table::data_provider::page_result;
use struct_table::display_strategy::DisplayStrategy;
use struct_table::loaded_rows::RowState;
use struct_table::selection::Selection;
use struct_table::sorting::{SortingMode, TableHeadEvent};
use struct_table::table_state::{LoadRequest, TableState};
use struct_table::ColumnSort;

fn ranges(requests: &[LoadRequest]) -> Vec<Range<usize>> {
    requests.iter().map(|r| r.range.clone()).collect()
}

fn state_at(t: &TableState<usize>, i: usize) -> RowState<usize> {
    t.loaded_rows.get(i).clone()
}

/// A paginated source of `total` rows, each row its own index.
fn page(total: usize, range: &Range<usize>) -> (Vec<usize>, Range<usize>) {
    let rows: Vec<usize> = (range.start..range.end.min(total)).collect();
    page_result(range, rows)
}

#[test]
fn partial_last_page() {
    let mut t: TableState<usize> = TableState::new(
        SortingMode::MultiColumn,
        Selection::Disabled,
        DisplayStrategy::Virtualization,
        Some(20),
    );
    t.set_known_row_count(45);
    assert_eq!(t.loaded_rows.len(), 45);
    let requests = t.plan_loads(0, 20);
    assert_eq!(ranges(&requests), vec![0..20, 20..40, 40..60]);
    assert_eq!(t.loaded_rows.len(), 45);
    for i in 0..45 {
        assert_eq!(state_at(&t, i), RowState::Loading);
    }
    for request in &requests {
        let (rows, covered) = page(45, &request.range);
        assert!(t.apply_load_result(request, Ok((rows, covered))));
    }
    assert_eq!(t.loaded_rows.len(), 45);
    assert_eq!(t.row_count, Some(45));
    for i in 0..45 {
        assert_eq!(state_at(&t, i), RowState::Loaded(i));
    }
    assert!(t.plan_loads(0, 20).is_empty());
}

#[test]
fn short_result_reveals_the_row_count() {
    let mut t: TableState<usize> = TableState::new(
        SortingMode::MultiColumn,
        Selection::Disabled,
        DisplayStrategy::InfiniteScroll,
        None,
    );
    let requests = t.plan_loads(0, 4);
    assert_eq!(ranges(&requests), vec![0..20]);
    assert_eq!(requests[0].row_count, None);
    assert!(t.apply_load_result(&requests[0], Ok(((0..5).collect(), 0..5))));
    assert_eq!(t.row_count, Some(5));
    assert_eq!(t.loaded_rows.len(), 5);
    assert_eq!(state_at(&t, 4), RowState::Loaded(4));
}

#[test]
fn error_then_reload() {
    let mut t: TableState<usize> = TableState::new(
        SortingMode::MultiColumn,
        Selection::Disabled,
        DisplayStrategy::Virtualization,
        None,
    );
    let requests = t.plan_loads(0, 4);
    assert_eq!(ranges(&requests), vec![0..20]);
    assert!(t.apply_load_result(&requests[0], Err("source failed".to_string())));
    for i in 0..20 {
        assert_eq!(state_at(&t, i), RowState::Error("source failed".to_string()));
    }
    assert!(t.plan_loads(0, 4).is_empty());
    assert!(!t.clear(false));
    let again = t.plan_loads(0, 4);
    assert_eq!(ranges(&again), vec![0..20]);
}

#[test]
fn stale_result_is_dropped() {
    let mut t: TableState<usize> = TableState::new(
        SortingMode::MultiColumn,
        Selection::Disabled,
        DisplayStrategy::Virtualization,
        None,
    );
    let requests = t.plan_loads(0, 4);
    assert_eq!(ranges(&requests), vec![0..20]);
    t.clear(false);
    assert!(!t.apply_load_result(&requests[0], Ok(((0..20).collect(), 0..20))));
    assert_eq!(t.loaded_rows.len(), 20);
    for i in 0..20 {
        assert_eq!(state_at(&t, i), RowState::Placeholder);
    }
}

#[test]
fn head_click_sorts_and_clears() {
    let mut t: TableState<usize> = TableState::new(
        SortingMode::SingleColumn,
        Selection::Multiple(HashSet::new()),
        DisplayStrategy::Virtualization,
        None,
    );
    let requests = t.plan_loads(0, 4);
    assert!(t.apply_load_result(&requests[0], Ok(((0..20).collect(), 0..20))));
    assert!(t.on_row_click(3, false, false));
    let before = t.reload_count;
    t.on_head_click(TableHeadEvent { index: 1 });
    assert_eq!(t.sorting.iter().copied().collect::<Vec<_>>(), vec![(1, ColumnSort::Ascending)]);
    assert_ne!(t.reload_count, before);
    assert_eq!(t.first_selected_index, None);
    assert!(!t.selection.is_selected(3));
    assert_eq!(state_at(&t, 0), RowState::Placeholder);
    t.on_head_click(TableHeadEvent { index: 2 });
    assert_eq!(t.sorting.iter().copied().collect::<Vec<_>>(), vec![(2, ColumnSort::Ascending)]);
}

#[test]
fn clear_with_row_count_asks_for_it_again() {
    let mut t: TableState<usize> = TableState::new(
        SortingMode::MultiColumn,
        Selection::Disabled,
        DisplayStrategy::Virtualization,
        None,
    );
    assert!(!t.clear(true));
    t.set_known_row_count(10);
    assert!(t.clear(true));
    assert_eq!(t.row_count, None);
    assert_eq!(t.loaded_rows.len(), 10);
}

#[test]
fn reload_count_wraps() {
    let mut t: TableState<usize> = TableState::new(
        SortingMode::MultiColumn,
        Selection::Disabled,
        DisplayStrategy::Virtualization,
        None,
    );
    t.reload_count = usize::MAX;
    t.clear(false);
    assert_eq!(t.reload_count, 0);
}

#[test]
fn display_range_follows_the_page() {
    let mut controller = struct_table::PaginationController::new();
    controller.current_page = 1;
    let mut t: TableState<usize> = TableState::new(
        SortingMode::MultiColumn,
        Selection::Disabled,
        DisplayStrategy::Pagination { row_count: 10, controller },
        None,
    );
    let first = t.display_strategy.first_visible_row_index(0);
    let visible = t.display_strategy.visible_row_count(0);
    let requests = t.plan_loads(first, visible);
    assert_eq!(t.display_range, 10..20);
    assert_eq!(ranges(&requests), vec![0..60]);
}
