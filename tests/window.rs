use struct_table::display_strategy::{DisplayStrategy, PaginationController};
use struct_table::loaded_rows::LoadedRows;
use struct_table::window::{compute_window, filled_run, split_missing_range};

fn window(
    first: usize,
    visible: usize,
    row_count: Option<usize>,
    chunk: Option<usize>,
    strategy: &DisplayStrategy,
) -> Option<(std::ops::Range<usize>, std::ops::Range<usize>)> {
    compute_window(first, visible, row_count, chunk, strategy).map(|w| (w.load_range, w.display_range))
}

fn paginated(row_count: usize, page: usize) -> DisplayStrategy {
    let mut controller = PaginationController::new();
    controller.current_page = page;
    DisplayStrategy::Pagination { row_count, controller }
}

#[test]
fn window_reaches_two_before_and_five_after() {
    let v = DisplayStrategy::Virtualization;
    assert_eq!(window(100, 20, None, None, &v), Some((60..200, 60..200)));
    assert_eq!(window(10, 20, None, None, &v), Some((0..110, 0..110)));
}

#[test]
fn window_is_capped_at_the_maximum_span() {
    let v = DisplayStrategy::InfiniteScroll;
    assert_eq!(window(1000, 100, None, None, &v), Some((800..1300, 800..1300)));
    assert_eq!(window(0, 600, None, None, &v), Some((0..500, 0..500)));
    assert_eq!(window(1000, 100, Some(5000), None, &v), Some((800..1300, 800..1300)));
}

#[test]
fn window_is_clamped_to_the_row_count() {
    let v = DisplayStrategy::Virtualization;
    assert_eq!(window(0, 20, Some(45), None, &v), Some((0..45, 0..45)));
    assert_eq!(window(100, 20, Some(30), None, &v), Some((30..30, 30..30)));
    assert_eq!(window(0, 20, Some(0), None, &v), Some((0..0, 0..0)));
}

#[test]
fn window_is_widened_to_chunks_within_the_row_count() {
    let v = DisplayStrategy::Virtualization;
    assert_eq!(window(50, 20, None, Some(20), &v), Some((0..160, 0..160)));
    assert_eq!(window(0, 20, Some(45), Some(20), &v), Some((0..45, 0..45)));
    assert_eq!(window(70, 4, None, Some(25), &v), Some((50..100, 50..100)));
}

#[test]
fn no_window_without_visible_rows() {
    let v = DisplayStrategy::Virtualization;
    assert!(compute_window(10, 0, None, None, &v).is_none());
}

#[test]
fn pagination_renders_one_page() {
    let p = paginated(10, 2);
    assert_eq!(p.first_visible_row_index(999), 20);
    assert_eq!(p.visible_row_count(999), 10);
    assert_eq!(window(20, 10, None, None, &p), Some((0..70, 20..30)));
    assert_eq!(window(20, 10, Some(25), None, &p), Some((0..25, 20..25)));
}

#[test]
fn visible_rows_have_a_floor() {
    let v = DisplayStrategy::Virtualization;
    assert_eq!(v.visible_row_count(5), 20);
    assert_eq!(v.visible_row_count(35), 35);
    assert_eq!(v.first_visible_row_index(42), 42);
}

#[test]
fn missing_range_split_into_chunks() {
    assert_eq!(split_missing_range(5..45, Some(20)), vec![0..20, 20..40, 40..60]);
    assert_eq!(split_missing_range(3..4, Some(10)), vec![0..10]);
    assert_eq!(split_missing_range(20..40, Some(20)), vec![20..40]);
    assert_eq!(split_missing_range(5..45, None), vec![5..45]);
}

#[test]
fn filled_run_for_measuring() {
    let mut rows: LoadedRows<u8> = LoadedRows::new();
    rows.resize(7);
    rows.write_loading(1..3);
    rows.write_loaded(Ok((vec![1, 2, 3], 4..7)), 4..7);
    assert_eq!(filled_run(&rows, 0..7), Some((1, 2)));
    assert_eq!(filled_run(&rows, 3..7), Some((4, 6)));
    assert_eq!(filled_run(&rows, 0..1), None);
    let mut single: LoadedRows<u8> = LoadedRows::new();
    single.resize(3);
    single.write_loading(1..2);
    assert_eq!(filled_run(&single, 0..3), None);
}

#[test]
fn pagination_controller_moves_between_pages() {
    let mut c = PaginationController::default();
    assert_eq!(c.current_page, 0);
    c.previous();
    assert_eq!(c.current_page, 0);
    c.next();
    c.next();
    assert_eq!(c.current_page, 2);
    c.previous();
    assert_eq!(c.current_page, 1);
    assert_eq!(c.page_count(), None);
}

#[test]
fn row_count_sets_the_page_count() {
    let mut p = paginated(20, 0);
    p.set_row_count(45);
    match &p {
        DisplayStrategy::Pagination { controller, .. } => assert_eq!(controller.page_count(), Some(3)),
        _ => panic!("not paginated"),
    }
    let mut v = DisplayStrategy::default();
    v.set_row_count(45);
    assert!(matches!(v, DisplayStrategy::Virtualization));
}
