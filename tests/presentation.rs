use struct_table::class_providers::{
    BootstrapClassesPreset, DummyTableClassesProvider, TableClassesProvider, TailwindClassesPreset,
};
use struct_table::drag::{drag_classes, finish_drag, DragSide, DragState};
use struct_table::head::{decimal, default_th_sorting_style};
use struct_table::loaded_rows::{LoadedRows, RowState};
use struct_table::row_reader::RowReader;
use struct_table::{ColumnSort, FieldGetter, NumberRenderOptions};

#[test]
fn sorting_style_of_a_head_cell() {
    assert_eq!(
        default_th_sorting_style(Some(0), ColumnSort::Ascending),
        "--sort-icon: '▲'; --sort-priority: '1';"
    );
    assert_eq!(
        default_th_sorting_style(Some(11), ColumnSort::Descending),
        "--sort-icon: '▼'; --sort-priority: '12';"
    );
    assert_eq!(
        default_th_sorting_style(None, ColumnSort::Unsorted),
        "--sort-icon: ''; --sort-priority: '';"
    );
}

#[test]
fn decimal_text() {
    assert_eq!(decimal(0), "0");
    assert_eq!(decimal(7), "7");
    assert_eq!(decimal(10), "10");
    assert_eq!(decimal(90210), "90210");
    assert_eq!(decimal(usize::MAX), usize::MAX.to_string());
}

#[test]
fn default_classes() {
    let p = DummyTableClassesProvider::new();
    assert_eq!(p.thead("a b"), "a b");
    assert_eq!(p.thead_row("r"), "r");
    assert_eq!(p.tbody("t"), "t");
    assert_eq!(p.thead_cell(ColumnSort::Ascending, "c"), "sort-asc c");
    assert_eq!(p.thead_cell(ColumnSort::Unsorted, "c"), " c");
    assert_eq!(p.thead_cell_inner(), "");
    assert_eq!(p.row(3, true, "row"), "row selected");
    assert_eq!(p.row(3, false, "row"), "row");
    assert_eq!(p.loading_cell(1, 2, "l"), "l");
    assert_eq!(p.loading_cell_inner(1, 2, "li"), "li");
    assert_eq!(p.cell("x"), "x");
}

#[test]
fn bootstrap_classes() {
    let p = BootstrapClassesPreset::new();
    assert_eq!(p.row(0, true, "r"), "table-active r");
    assert_eq!(p.row(0, false, "r"), " r");
    assert_eq!(p.cell("x"), "x");
}

#[test]
fn tailwind_classes() {
    let p = TailwindClassesPreset::new();
    assert_eq!(p.table("t"), "text-sm text-left text-gray-500 dark:text-gray-400 t");
    assert_eq!(p.cell("c"), "px-5 py-2 c");
    assert_eq!(
        p.thead_cell(ColumnSort::Unsorted, "h"),
        "cursor-pointer px-5 py-2  h"
    );
    assert_eq!(
        p.thead_cell(ColumnSort::Descending, "h"),
        "cursor-pointer px-5 py-2 text-black dark:text-white h"
    );
    assert_eq!(
        p.row(2, false, "x"),
        "border-b dark:border-gray-700 bg-white dark:bg-gray-900 hover:bg-gray-100 dark:hover:bg-gray-800 x"
    );
    assert_eq!(
        p.row(3, false, "x"),
        "border-b dark:border-gray-700 bg-gray-50 dark:bg-gray-800 hover:bg-gray-100 dark:hover:bg-gray-700 x"
    );
    assert_eq!(
        p.row(3, true, "x"),
        "border-b dark:border-gray-700 bg-sky-300 text-gray-700 dark:bg-sky-700 dark:text-gray-400 x"
    );
    assert_eq!(
        p.thead_row("y"),
        "text-xs text-gray-700 uppercase bg-gray-200 dark:bg-gray-700 dark:text-gray-300 y"
    );
}

#[test]
fn reorder_columns_by_dragging() {
    let mut cols = vec!['a', 'b', 'c', 'd'];
    DragState { grabbed: 'a', hovering_over: 'c', hovering_side: DragSide::Right }
        .reorder_columns(&mut cols);
    assert_eq!(cols, vec!['b', 'c', 'a', 'd']);
    let mut cols = vec!['a', 'b', 'c', 'd'];
    DragState { grabbed: 'a', hovering_over: 'c', hovering_side: DragSide::Left }
        .reorder_columns(&mut cols);
    assert_eq!(cols, vec!['b', 'a', 'c', 'd']);
    let mut cols = vec!['a', 'b', 'c', 'd'];
    DragState { grabbed: 'd', hovering_over: 'b', hovering_side: DragSide::Left }
        .reorder_columns(&mut cols);
    assert_eq!(cols, vec!['a', 'd', 'b', 'c']);
    let mut cols = vec!['a', 'b'];
    DragState { grabbed: 'b', hovering_over: 'b', hovering_side: DragSide::Right }
        .reorder_columns(&mut cols);
    assert_eq!(cols, vec!['a', 'b']);
}

#[test]
fn row_reader_reads_the_cache() {
    let mut rows: LoadedRows<u16> = LoadedRows::new();
    rows.resize(3);
    rows.write_loaded(Ok((vec![8], 1..2)), 1..2);
    let reader = RowReader::new(&rows);
    assert_eq!(reader.cached_row(1), RowState::Loaded(8));
    assert_eq!(reader.cached_row(0), RowState::Placeholder);
    assert_eq!(reader.cached_row(5), RowState::Placeholder);
    let unattached: RowReader<u16> = RowReader::default();
    assert_eq!(unattached.cached_row(1), RowState::Placeholder);
}

#[test]
fn small_value_types() {
    assert_eq!(NumberRenderOptions::default().precision, None);
    let g: FieldGetter<u8> = FieldGetter::default();
    let h = g;
    assert_eq!(g, h);
}

#[test]
fn drag_classes_mark_grabbed_and_hovered_columns() {
    let cols = vec![1u8, 2, 3, 4];
    let none: Option<DragState<u8>> = None;
    assert_eq!(drag_classes(&none, &1, &cols), "");
    let left = Some(DragState { grabbed: 1u8, hovering_over: 3, hovering_side: DragSide::Left });
    assert_eq!(drag_classes(&left, &1, &cols), "grabbed");
    assert_eq!(drag_classes(&left, &3, &cols), "hover-left");
    assert_eq!(drag_classes(&left, &2, &cols), "");
    let right = Some(DragState { grabbed: 2u8, hovering_over: 3, hovering_side: DragSide::Right });
    assert_eq!(drag_classes(&right, &3, &cols), "hover-right");
    let beside = Some(DragState { grabbed: 2u8, hovering_over: 3, hovering_side: DragSide::Left });
    assert_eq!(drag_classes(&beside, &3, &cols), "");
    let before = Some(DragState { grabbed: 3u8, hovering_over: 2, hovering_side: DragSide::Right });
    assert_eq!(drag_classes(&before, &2, &cols), "");
}

#[test]
fn finishing_a_drag_reorders_once() {
    let mut cols = vec!['a', 'b', 'c'];
    let mut state = Some(DragState::start('c'));
    if let Some(d) = state.as_mut() {
        d.hovering_over = 'a';
        d.hovering_side = DragSide::Left;
    }
    finish_drag(&mut state, &mut cols);
    assert!(state.is_none());
    assert_eq!(cols, vec!['c', 'a', 'b']);
    finish_drag(&mut state, &mut cols);
    assert_eq!(cols, vec!['c', 'a', 'b']);
}
