use std::ops::Range;
use vstd::prelude::*;

verus! {

/// A store of rows that a table reads and edits.
pub trait TableDataStorage<T> {
    /// The rows of `range`. The range follows what is visible and may reach past the last
    /// row: the store clamps it.
    fn get_rows(&self, range: Range<usize>) -> Result<Vec<T>, String>;

    /// Replaces the row at `index` with `row`.
    fn set_row(&mut self, index: usize, row: T) -> Result<(), String>;
}

/// A store that keeps its rows in memory.
pub struct MemoryStorage<T> {
    data: Vec<T>,
}

impl<T> View for MemoryStorage<T> {
    type V = Seq<T>;

    closed spec fn view(&self) -> Seq<T> {
        self.data@
    }
}

impl<T> MemoryStorage<T> {
    /// A store that holds `data`.
    pub fn new(data: Vec<T>) -> (r: Self)
        ensures
            r@ == data@,
    {
        MemoryStorage { data }
    }
}

impl<T: Clone> TableDataStorage<T> for MemoryStorage<T> {
    fn get_rows(&self, range: Range<usize>) -> (r: Result<Vec<T>, String>)
        ensures
            range.start <= range.end ==> (r matches Ok(rows) && is_clamped_copy(self@, range, rows@)),
            range.start > range.end ==> r is Err,
    {
        if range.start > range.end {
            return Err(String::from_str("the range ends before it starts"));
        }
        Ok(get_vec_range_clamped(&self.data, range))
    }

    /// A row past the last one is left alone.
    fn set_row(&mut self, index: usize, row: T) -> (r: Result<(), String>)
        ensures
            r is Ok,
            index < old(self)@.len() ==> final(self)@ == old(self)@.update(index as int, row),
            index >= old(self)@.len() ==> final(self)@ == old(self)@,
    {
        if index < self.data.len() {
            self.data[index] = row;
        }
        Ok(())
    }
}

/// Where a clamped copy of `range` starts in a non-empty vector of `len` items: at the range's
/// start, or at the last item when the range starts past it.
pub open spec fn clamped_start(len: int, range: Range<usize>) -> int {
    if range.start < len - 1 {
        range.start as int
    } else {
        len - 1
    }
}

/// Where a clamped copy of `range` ends: at the range's end, or at the vector's end.
pub open spec fn clamped_end(len: int, range: Range<usize>) -> int {
    if range.end < len {
        range.end as int
    } else {
        len
    }
}

/// `out` is a copy of `v[range]` with `range` clamped to `v`; empty when `v` is.
pub open spec fn is_clamped_copy<T: Clone>(v: Seq<T>, range: Range<usize>, out: Seq<T>) -> bool {
    if v.len() == 0 {
        out.len() == 0
    } else {
        let start = clamped_start(v.len() as int, range);
        let end = clamped_end(v.len() as int, range);
        &&& out.len() == end - start
        &&& forall|k: int| 0 <= k < out.len() ==> cloned(v[start + k], #[trigger] out[k])
    }
}

/// Copies `vec[range]`, with `range` clamped to the length of `vec`.
pub fn get_vec_range_clamped<T: Clone>(vec: &Vec<T>, range: Range<usize>) -> (r: Vec<T>)
    requires
        range.start <= range.end,
    ensures
        is_clamped_copy(vec@, range, r@),
{
    if vec.len() == 0 {
        return Vec::new();
    }
    let start = if range.start < vec.len() - 1 {
        range.start
    } else {
        vec.len() - 1
    };
    let end = if range.end < vec.len() {
        range.end
    } else {
        vec.len()
    };
    let mut out: Vec<T> = Vec::new();
    let mut i = start;
    while i < end
        invariant
            start <= i <= end || i == start,
            start < vec@.len(),
            end <= vec@.len(),
            out@.len() == i - start,
            forall|k: int| 0 <= k < out@.len() ==> cloned(vec@[start + k], #[trigger] out@[k]),
        decreases end - i,
    {
        out.push(vec[i].clone());
        i = i + 1;
    }
    out
}

} // verus!
