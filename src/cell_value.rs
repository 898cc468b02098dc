use vstd::prelude::*;

verus! {

/// How a number is rendered in a cell.
pub struct NumberRenderOptions {
    /// The number of digits after the decimal point.
    pub precision: Option<usize>,
}

impl Default for NumberRenderOptions {
    fn default() -> (r: NumberRenderOptions)
        ensures
            r.precision is None,
    {
        NumberRenderOptions { precision: None }
    }
}

} // verus!
