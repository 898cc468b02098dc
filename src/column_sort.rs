use vstd::prelude::*;

verus! {

/// The direction in which a column is sorted.
#[derive(Clone, Copy, Debug, PartialEq, Eq, Structural)]
pub enum ColumnSort {
    Ascending,
    Descending,
    /// The column is not sorted.
    Unsorted,
}

impl ColumnSort {
    /// The direction that one more click on the column's head gives:
    /// unsorted, then ascending, then descending, then unsorted again.
    pub open spec fn cycled(self) -> ColumnSort {
        match self {
            ColumnSort::Unsorted => ColumnSort::Ascending,
            ColumnSort::Ascending => ColumnSort::Descending,
            ColumnSort::Descending => ColumnSort::Unsorted,
        }
    }

    /// The next direction in the cycle unsorted, ascending, descending.
    pub fn cycle(self) -> (r: ColumnSort)
        ensures
            r == self.cycled(),
    {
        match self {
            ColumnSort::Unsorted => ColumnSort::Ascending,
            ColumnSort::Ascending => ColumnSort::Descending,
            ColumnSort::Descending => ColumnSort::Unsorted,
        }
    }

    /// The default class name for a head cell sorted in this direction.
    pub fn as_class(&self) -> (r: &'static str)
        ensures
            r@ == match *self {
                ColumnSort::Ascending => "sort-asc"@,
                ColumnSort::Descending => "sort-desc"@,
                ColumnSort::Unsorted => ""@,
            },
    {
        match self {
            ColumnSort::Ascending => "sort-asc",
            ColumnSort::Descending => "sort-desc",
            _ => "",
        }
    }

    /// The SQL sort order, `ASC` or `DESC`, or `None` for an unsorted column.
    pub fn as_sql(&self) -> (r: Option<&'static str>)
        ensures
            match *self {
                ColumnSort::Ascending => r matches Some(s) && s@ == "ASC"@,
                ColumnSort::Descending => r matches Some(s) && s@ == "DESC"@,
                ColumnSort::Unsorted => r is None,
            },
    {
        match self {
            ColumnSort::Ascending => Some("ASC"),
            ColumnSort::Descending => Some("DESC"),
            _ => None,
        }
    }
}

} // verus!
