use vstd::prelude::*;

verus! {

/// An enum of the columns of a row type.
pub trait ColumnEnum {
    /// The name of the field that the variant stands for.
    fn column_name(&self) -> &'static str;
}

} // verus!
