//! Sort state: which column the table is ordered by, and in which
//! direction.
//!
//! The state machine has the shape `Unsorted`, `SortedBy(column,
//! Ascending)`, `SortedBy(column, Descending)`. Toggling the column that
//! is already active flips the direction; toggling any other column makes
//! it the active one and resets the direction to ascending.

use vstd::prelude::*;

verus! {

/// Direction in which the active column orders the rows.
#[derive(Clone, Copy, Debug, PartialEq, Eq, Structural)]
pub enum SortOrder {
    Ascending,
    Descending,
}

/// The opposite direction.
pub open spec fn flipped(order: SortOrder) -> SortOrder {
    match order {
        SortOrder::Ascending => SortOrder::Descending,
        SortOrder::Descending => SortOrder::Ascending,
    }
}

/// Which column the table is ordered by, if any, and in which direction.
///
/// A column is identified by the stable key it was registered under, never
/// by its position among the currently visible columns.
#[derive(Clone, Copy, Debug)]
pub struct SortState {
    pub column: Option<usize>,
    pub order: SortOrder,
}

/// The state reached from `s` by toggling `column`.
pub open spec fn toggled(s: SortState, column: usize) -> SortState {
    SortState {
        column: Some(column),
        order: if s.column == Some(column) {
            flipped(s.order)
        } else {
            SortOrder::Ascending
        },
    }
}

impl SortState {
    /// The initial, unsorted state: rows keep the order the source
    /// delivered them in.
    pub fn new() -> (s: Self)
        ensures
            s.column is None,
            s.order == SortOrder::Ascending,
    {
        SortState { column: None, order: SortOrder::Ascending }
    }

    /// React to a click on the header of `column`: flip the direction if
    /// `column` is already the active one, otherwise make it active in
    /// ascending order.
    pub fn toggle_sort(&mut self, column: usize)
        ensures
            *final(self) == toggled(*old(self), column),
    {
        match self.column {
            Some(current) if current == column => {
                self.order = if matches!(self.order, SortOrder::Ascending) {
                    SortOrder::Descending
                } else {
                    SortOrder::Ascending
                };
                self.column = Some(column);
            },
            _ => {
                self.column = Some(column);
                self.order = SortOrder::Ascending;
            },
        }
    }
}

/// Toggling the active column twice restores the whole sort state, and in
/// particular the original direction: ascending goes to descending and
/// back.
pub proof fn lemma_toggle_same_column_twice(s: SortState, column: usize)
    requires
        s.column == Some(column),
    ensures
        toggled(toggled(s, column), column) == s,
{
}

/// Toggling a column other than the active one always resets the
/// direction to ascending and makes that column the active one.
pub proof fn lemma_toggle_other_column_resets(s: SortState, column: usize)
    requires
        s.column != Some(column),
    ensures
        toggled(s, column).column == Some(column),
        toggled(s, column).order == SortOrder::Ascending,
{
}

} // verus!
