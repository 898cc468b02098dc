use crate::column_sort::ColumnSort;
use vstd::prelude::*;

verus! {

/// `a`, a space, then `b`.
pub open spec fn spaced(a: Seq<char>, b: Seq<char>) -> Seq<char> {
    a + " "@ + b
}

fn join_spaced(a: &str, b: &str) -> (r: String)
    ensures
        r@ == spaced(a@, b@),
{
    let s = String::from_str(a);
    let s = s.concat(" ");
    s.concat(b)
}

/// The classes of a body row by default: those of the table's props, then `selected` for a
/// selected row.
pub open spec fn default_row_classes(selected: bool, prop_class: Seq<char>) -> Seq<char> {
    if selected {
        prop_class + " selected"@
    } else {
        prop_class
    }
}

/// The classes of a head cell by default: the sort class, then those of the field.
pub open spec fn default_head_cell_classes(sort: ColumnSort, macro_class: Seq<char>) -> Seq<char> {
    let c = match sort {
        ColumnSort::Ascending => "sort-asc"@,
        ColumnSort::Descending => "sort-desc"@,
        ColumnSort::Unsorted => ""@,
    };
    spaced(c, macro_class)
}

fn default_row(selected: bool, prop_class: &str) -> (r: String)
    ensures
        r@ == default_row_classes(selected, prop_class@),
{
    let s = String::from_str(prop_class);
    if selected {
        s.concat(" selected")
    } else {
        s
    }
}

fn default_head_cell(sort: ColumnSort, macro_class: &str) -> (r: String)
    ensures
        r@ == default_head_cell_classes(sort, macro_class@),
{
    join_spaced(sort.as_class(), macro_class)
}

/// The classes of the elements of a table.
pub trait TableClassesProvider: Sized {
    /// A new provider.
    fn new() -> Self;

    /// The classes of the thead, from those of the table's props.
    fn thead(&self, prop_class: &str) -> String {
        String::from_str(prop_class)
    }

    /// The classes of the row in the thead, from those of the table's props.
    fn thead_row(&self, prop_class: &str) -> String {
        String::from_str(prop_class)
    }

    /// The classes of a head cell, from its sort direction and the classes of the field.
    fn thead_cell(&self, sort: ColumnSort, macro_class: &str) -> String {
        default_head_cell(sort, macro_class)
    }

    /// The classes of the inner element of a head cell.
    fn thead_cell_inner(&self) -> String {
        String::new()
    }

    /// The classes of the tbody, from those of the table's props.
    fn tbody(&self, prop_class: &str) -> String {
        String::from_str(prop_class)
    }

    /// The classes of the body row at `row_index`, from whether it is selected and the
    /// classes of the table's props.
    fn row(&self, row_index: usize, selected: bool, prop_class: &str) -> String {
        default_row(selected, prop_class)
    }

    /// The classes of a cell of a row that is loading.
    fn loading_cell(&self, row_index: usize, col_index: usize, prop_class: &str) -> String {
        String::from_str(prop_class)
    }

    /// The classes of the inner element of a cell of a row that is loading.
    fn loading_cell_inner(&self, row_index: usize, col_index: usize, prop_class: &str) -> String {
        String::from_str(prop_class)
    }

    /// The classes of a body cell, from those of the field.
    fn cell(&self, macro_class: &str) -> String {
        String::from_str(macro_class)
    }
}

/// A provider that adds no classes of its own.
#[derive(Clone, Copy)]
pub struct DummyTableClassesProvider;

impl TableClassesProvider for DummyTableClassesProvider {
    fn new() -> Self {
        DummyTableClassesProvider
    }
}

/// Classes for Bootstrap.
#[derive(Clone, Copy)]
pub struct BootstrapClassesPreset;

/// The classes of a Bootstrap body row.
pub open spec fn bootstrap_row_classes(selected: bool, template_classes: Seq<char>) -> Seq<char> {
    spaced(
        if selected {
            "table-active"@
        } else {
            ""@
        },
        template_classes,
    )
}

impl TableClassesProvider for BootstrapClassesPreset {
    fn new() -> Self {
        BootstrapClassesPreset
    }

    fn row(&self, row_index: usize, selected: bool, template_classes: &str) -> (r: String)
        ensures
            r@ == bootstrap_row_classes(selected, template_classes@),
    {
        let active = if selected {
            "table-active"
        } else {
            ""
        };
        join_spaced(active, template_classes)
    }
}

/// Classes for Tailwind CSS.
#[derive(Clone, Copy)]
pub struct TailwindClassesPreset;

/// The background of a Tailwind body row: striped by index, highlighted when selected.
pub open spec fn tailwind_row_background(row_index: usize, selected: bool) -> Seq<char> {
    if selected {
        "bg-sky-300 text-gray-700 dark:bg-sky-700 dark:text-gray-400"@
    } else if row_index % 2 == 0 {
        "bg-white dark:bg-gray-900 hover:bg-gray-100 dark:hover:bg-gray-800"@
    } else {
        "bg-gray-50 dark:bg-gray-800 hover:bg-gray-100 dark:hover:bg-gray-700"@
    }
}

impl TailwindClassesPreset {
    /// The classes of the table element.
    pub fn table(&self, classes: &str) -> (r: String)
        ensures
            r@ == spaced("text-sm text-left text-gray-500 dark:text-gray-400"@, classes@),
    {
        join_spaced("text-sm text-left text-gray-500 dark:text-gray-400", classes)
    }
}

impl TableClassesProvider for TailwindClassesPreset {
    fn new() -> Self {
        TailwindClassesPreset
    }

    fn thead_row(&self, template_classes: &str) -> (r: String)
        ensures
            r@ == spaced(
                "text-xs text-gray-700 uppercase bg-gray-200 dark:bg-gray-700 dark:text-gray-300"@,
                template_classes@,
            ),
    {
        join_spaced(
            "text-xs text-gray-700 uppercase bg-gray-200 dark:bg-gray-700 dark:text-gray-300",
            template_classes,
        )
    }

    fn thead_cell(&self, sort: ColumnSort, template_classes: &str) -> (r: String)
        ensures
            r@ == spaced(
                spaced(
                    "cursor-pointer px-5 py-2"@,
                    if sort == ColumnSort::Unsorted {
                        ""@
                    } else {
                        "text-black dark:text-white"@
                    },
                ),
                template_classes@,
            ),
    {
        let sort_class = match sort {
            ColumnSort::Unsorted => "",
            _ => "text-black dark:text-white",
        };
        let s = join_spaced("cursor-pointer px-5 py-2", sort_class);
        let s = s.concat(" ");
        s.concat(template_classes)
    }

    fn thead_cell_inner(&self) -> (r: String)
        ensures
            r@
                == "flex items-center after:content-[--sort-icon] after:pl-1 after:opacity-40 before:content-[--sort-priority] before:order-last before:pl-0.5 before:font-light before:opacity-40"@,
    {
        String::from_str(
            "flex items-center after:content-[--sort-icon] after:pl-1 after:opacity-40 before:content-[--sort-priority] before:order-last before:pl-0.5 before:font-light before:opacity-40",
        )
    }

    fn row(&self, row_index: usize, selected: bool, template_classes: &str) -> (r: String)
        ensures
            r@ == spaced(
                spaced("border-b dark:border-gray-700"@, tailwind_row_background(row_index, selected)),
                template_classes@,
            ),
    {
        let bg_color = if selected {
            "bg-sky-300 text-gray-700 dark:bg-sky-700 dark:text-gray-400"
        } else if row_index % 2 == 0 {
            "bg-white dark:bg-gray-900 hover:bg-gray-100 dark:hover:bg-gray-800"
        } else {
            "bg-gray-50 dark:bg-gray-800 hover:bg-gray-100 dark:hover:bg-gray-700"
        };
        let s = join_spaced("border-b dark:border-gray-700", bg_color);
        let s = s.concat(" ");
        s.concat(template_classes)
    }

    fn cell(&self, template_classes: &str) -> (r: String)
        ensures
            r@ == spaced("px-5 py-2"@, template_classes@),
    {
        join_spaced("px-5 py-2", template_classes)
    }
}

} // verus!
