use vstd::laws_eq::obeys_concrete_eq;
use vstd::prelude::*;

verus! {

/// The side of a column's head that the cursor is on while another column is dragged over
/// it.
#[derive(Clone, Copy, Debug, PartialEq, Eq, Structural)]
pub enum DragSide {
    Left,
    Right,
}

/// A column being dragged over the head row to a new place.
pub struct DragState<Column> {
    /// The column being dragged.
    pub grabbed: Column,
    /// The column that the cursor was last over.
    pub hovering_over: Column,
    /// The side of `hovering_over` that the cursor is on.
    pub hovering_side: DragSide,
}

/// The index of the first `x` in `s`; `s.len()` when there is none.
pub open spec fn index_of<C>(s: Seq<C>, x: C) -> int
    decreases s.len(),
{
    if s.len() == 0 {
        0
    } else if s[0] == x {
        0
    } else {
        1 + index_of(s.drop_first(), x)
    }
}

/// The columns after the column at `g` is dropped on the `side` of the column at `h`.
pub open spec fn reordered<C>(s: Seq<C>, g: int, h: int, side: DragSide) -> Seq<C> {
    if g == h {
        s
    } else {
        let target = match side {
            DragSide::Left => h,
            DragSide::Right => h + 1,
        };
        let target = if target > g {
            target - 1
        } else {
            target
        };
        s.remove(g).insert(target, s[g])
    }
}

proof fn lemma_index_of_skip<C>(s: Seq<C>, x: C, i: int)
    requires
        0 <= i < s.len(),
        s[i] != x,
    ensures
        index_of(s.skip(i), x) == 1 + index_of(s.skip(i + 1), x),
{
    assert(s.skip(i).drop_first() =~= s.skip(i + 1));
}

/// The index of the first column equal to `x`.
fn position<C: PartialEq>(columns: &Vec<C>, x: &C) -> (r: usize)
    requires
        obeys_concrete_eq::<C>(),
        index_of(columns@, *x) < columns@.len(),
    ensures
        r == index_of(columns@, *x),
{
    let ghost s = columns@;
    let mut i: usize = 0;
    assert(s.skip(0) =~= s);
    while i < columns.len()
        invariant
            columns@ == s,
            0 <= i <= s.len(),
            index_of(s, *x) < s.len(),
            index_of(s, *x) == i + index_of(s.skip(i as int), *x),
            obeys_concrete_eq::<C>(),
        decreases s.len() - i,
    {
        proof {
            reveal(obeys_concrete_eq);
        }
        if columns[i] == *x {
            assert(s.skip(i as int)[0] == s[i as int]);
            return i;
        }
        proof {
            lemma_index_of_skip(s, *x, i as int);
        }
        i = i + 1;
    }
    assert(s.skip(i as int).len() == 0);
    i
}

impl<Column: PartialEq> DragState<Column> {
    /// Moves the grabbed column to the side of the column that it is dropped on.
    pub fn reorder_columns(&self, columns: &mut Vec<Column>)
        requires
            obeys_concrete_eq::<Column>(),
            index_of(old(columns)@, self.grabbed) < old(columns)@.len(),
            index_of(old(columns)@, self.hovering_over) < old(columns)@.len(),
        ensures
            final(columns)@ == reordered(
                old(columns)@,
                index_of(old(columns)@, self.grabbed),
                index_of(old(columns)@, self.hovering_over),
                self.hovering_side,
            ),
    {
        let len = columns.len();
        let index = position(columns, &self.hovering_over);
        let grabbed_index = position(columns, &self.grabbed);
        if grabbed_index == index {
            return ;
        }
        assert(index < len);
        let grabbed = columns.remove(grabbed_index);
        let mut index = match self.hovering_side {
            DragSide::Left => index,
            DragSide::Right => index + 1,
        };
        if index > grabbed_index {
            index = index - 1;
        }
        columns.insert(index, grabbed);
    }
}

/// Dropping the column at `g` on the `side` of the column at `h` leaves it where it is.
pub open spec fn drop_changes_nothing(g: int, h: int, side: DragSide) -> bool {
    ||| g == h
    ||| side == DragSide::Left && h == g + 1
    ||| side == DragSide::Right && h + 1 == g
}

/// No column appears twice.
pub open spec fn distinct<C>(s: Seq<C>) -> bool {
    forall|i: int, j: int| 0 <= i < j < s.len() ==> s[i] != s[j]
}

/// Among distinct columns, a drop keeps the order exactly when `drop_changes_nothing` says so.
pub proof fn lemma_drop_changes_nothing<C>(s: Seq<C>, g: int, h: int, side: DragSide)
    requires
        distinct(s),
        0 <= g < s.len(),
        0 <= h < s.len(),
    ensures
        reordered(s, g, h, side) == s <==> drop_changes_nothing(g, h, side),
{
    if g != h {
        let target = match side {
            DragSide::Left => h,
            DragSide::Right => h + 1,
        };
        let target = if target > g {
            target - 1
        } else {
            target
        };
        let r = s.remove(g).insert(target, s[g]);
        assert(r[target] == s[g]);
        if target == g {
            assert(r =~= s);
        } else {
            assert(r[target] != s[target]);
        }
    }
}

/// The class of a column's head while a column is dragged: `grabbed` on the dragged column;
/// `hover-left` or `hover-right` on the column under the cursor, unless dropping there would
/// leave the order as it is; none otherwise.
pub open spec fn drag_class<C>(drag_state: Option<DragState<C>>, column: C, columns: Seq<C>) -> Seq<
    char,
> {
    match drag_state {
        None => ""@,
        Some(d) => if d.grabbed == column {
            "grabbed"@
        } else if d.hovering_over == column {
            if drop_changes_nothing(
                index_of(columns, d.grabbed),
                index_of(columns, d.hovering_over),
                d.hovering_side,
            ) {
                ""@
            } else {
                match d.hovering_side {
                    DragSide::Left => "hover-left"@,
                    DragSide::Right => "hover-right"@,
                }
            }
        } else {
            ""@
        },
    }
}

/// The class of the head of `column` for the drag in progress; see `drag_class`.
pub fn drag_classes<C: PartialEq>(drag_state: &Option<DragState<C>>, column: &C, columns: &Vec<
    C,
>) -> (r: &'static str)
    requires
        obeys_concrete_eq::<C>(),
        *drag_state matches Some(d) ==> index_of(columns@, d.grabbed) < columns@.len()
            && index_of(columns@, d.hovering_over) < columns@.len(),
    ensures
        r@ == drag_class(*drag_state, *column, columns@),
{
    proof {
        reveal(obeys_concrete_eq);
    }
    match drag_state {
        None => "",
        Some(d) => {
            if d.grabbed == *column {
                "grabbed"
            } else if d.hovering_over == *column {
                let g = position(columns, &d.grabbed);
                let h = position(columns, &d.hovering_over);
                let unchanged = g == h || match d.hovering_side {
                    DragSide::Left => h > g && h - g == 1,
                    DragSide::Right => g > h && g - h == 1,
                };
                if unchanged {
                    ""
                } else {
                    match d.hovering_side {
                        DragSide::Left => "hover-left",
                        DragSide::Right => "hover-right",
                    }
                }
            } else {
                ""
            }
        },
    }
}

/// Ends a drag, on a drop or when the drag stops: the grabbed column moves to where it was
/// dropped, and no drag is in progress afterwards.
pub fn finish_drag<C: PartialEq>(drag_state: &mut Option<DragState<C>>, columns: &mut Vec<C>)
    requires
        obeys_concrete_eq::<C>(),
        *old(drag_state) matches Some(d) ==> index_of(old(columns)@, d.grabbed) < old(
            columns,
        )@.len() && index_of(old(columns)@, d.hovering_over) < old(columns)@.len(),
    ensures
        *final(drag_state) is None,
        match *old(drag_state) {
            Some(d) => final(columns)@ == reordered(
                old(columns)@,
                index_of(old(columns)@, d.grabbed),
                index_of(old(columns)@, d.hovering_over),
                d.hovering_side,
            ),
            None => final(columns)@ == old(columns)@,
        },
{
    if let Some(d) = drag_state.take() {
        d.reorder_columns(columns);
    }
}

impl<Column: Clone> DragState<Column> {
    /// A drag of `column` that starts over the column itself.
    pub fn start(column: Column) -> (r: Self)
        ensures
            cloned(column, r.grabbed),
            r.hovering_over == column,
            r.hovering_side == DragSide::Left,
    {
        DragState { grabbed: column.clone(), hovering_over: column, hovering_side: DragSide::Left }
    }
}

} // verus!
