//! Row loading, caching, sorting and selection for a virtualized table.
use vstd::prelude::*;

pub mod cell_value;
pub mod class_providers;
pub mod column_enum;
pub mod column_sort;
pub mod data_provider;
pub mod data_storage;
pub mod display_strategy;
pub mod drag;
pub mod head;
pub mod loaded_rows;
pub mod row_reader;
pub mod selection;
pub mod sorting;
pub mod table_state;
pub mod window;

pub use cell_value::NumberRenderOptions;
pub use class_providers::{
    BootstrapClassesPreset, DummyTableClassesProvider, TableClassesProvider, TailwindClassesPreset,
};
pub use column_enum::ColumnEnum;
pub use column_sort::ColumnSort;
pub use data_provider::get_vec_range_clamped;
pub use data_storage::{MemoryStorage, TableDataStorage};
pub use display_strategy::{DisplayStrategy, PaginationController};
pub use drag::{drag_classes, finish_drag, DragSide, DragState};
pub use head::default_th_sorting_style;
pub use loaded_rows::{LoadedRows, RowState};
pub use row_reader::RowReader;
pub use selection::{update_selection, Selection};
pub use sorting::{get_sorting_for_column, sorting_to_sql, SortingMode, TableHeadEvent};
pub use table_state::{LoadRequest, TableState};

use std::marker::PhantomData;

verus! {

/// Marks a field whose value is read through a getter method of the row.
#[derive(Debug, PartialEq, Eq, Hash, PartialOrd, Ord, Default)]
pub struct FieldGetter<T>(pub PhantomData<T>);

impl<T> Clone for FieldGetter<T> {
    fn clone(&self) -> (r: Self)
        ensures
            r == *self,
    {
        FieldGetter(PhantomData)
    }
}

impl<T> Copy for FieldGetter<T> {

}

} // verus!
