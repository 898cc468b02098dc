use crate::loaded_rows::{state_cloned, LoadedRows, RowState};
use vstd::prelude::*;

verus! {

/// Reads the cached state of the rows of a table.
pub struct RowReader<'a, Row> {
    rows: Option<&'a LoadedRows<Row>>,
}

impl<'a, Row> RowReader<'a, Row> {
    /// The cache that the reader reads, if any.
    pub closed spec fn source(&self) -> Option<Seq<RowState<Row>>> {
        match self.rows {
            Some(r) => Some(r@),
            None => None,
        }
    }

    /// A reader of `rows`.
    pub fn new(rows: &'a LoadedRows<Row>) -> (r: Self)
        ensures
            r.source() == Some(rows@),
    {
        RowReader { rows: Some(rows) }
    }

    /// The cached state of the row at `index`: a placeholder for a row that the cache does
    /// not hold, or when the reader reads no cache.
    pub fn cached_row(&self, index: usize) -> (r: RowState<Row>)
        where
            Row: Clone,
        ensures
            match self.source() {
                Some(s) => if index < s.len() {
                    state_cloned(s[index as int], r)
                } else {
                    r is Placeholder
                },
                None => r is Placeholder,
            },
    {
        match self.rows {
            Some(rows) => {
                if index < rows.len() {
                    rows.get(index).clone()
                } else {
                    RowState::Placeholder
                }
            },
            None => RowState::Placeholder,
        }
    }
}

impl<'a, Row> Default for RowReader<'a, Row> {
    /// A reader of no cache: every row reads as a placeholder.
    fn default() -> (r: Self)
        ensures
            r.source() is None,
    {
        RowReader { rows: None }
    }
}

} // verus!
