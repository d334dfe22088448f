//! Column registry: the ordered list of column descriptors of one table.
//!
//! Each column carries a stable key assigned at registration time. Sort
//! toggling and visibility changes always address a column by that key,
//! never by its position among the currently visible columns, which
//! shifts as columns are hidden.

use vstd::prelude::*;

verus! {

/// One column of the table: its heading, whether it is currently shown,
/// and whether rows can be ordered by it. How a cell of this column is
/// rendered from a record is presentation and stays outside the crate.
#[derive(Clone, Debug)]
pub struct TableColumn {
    /// Stable identity, assigned when the column is registered.
    pub key: usize,
    pub title: String,
    pub visible: bool,
    pub sortable: bool,
}

/// The ordered column list. The shape is fixed at construction; only the
/// visibility flags change afterwards.
#[derive(Clone, Debug)]
pub struct ColumnRegistry {
    columns: Vec<TableColumn>,
}

/// A field-for-field copy of a column descriptor, with the copy proved
/// equal to the original.
fn copy_column(c: &TableColumn) -> (r: TableColumn)
    ensures
        r == *c,
{
    TableColumn { key: c.key, title: c.title.clone(), visible: c.visible, sortable: c.sortable }
}

impl ColumnRegistry {
    /// Every column's key is its registration position, so keys are
    /// unique and survive visibility filtering.
    pub closed spec fn wf(&self) -> bool {
        forall|i: int| 0 <= i < self.columns@.len() ==> (#[trigger] self.columns@[i]).key == i
    }

    /// The full ordered column list.
    pub closed spec fn spec_columns(&self) -> Seq<TableColumn> {
        self.columns@
    }

    /// An empty registry.
    pub fn new() -> (r: Self)
        ensures
            r.wf(),
            r.spec_columns() == Seq::<TableColumn>::empty(),
    {
        let r = ColumnRegistry { columns: Vec::new() };
        proof {
            assert(r.columns@ =~= Seq::<TableColumn>::empty());
        }
        r
    }

    /// Register one more column, visible by default, and hand back its
    /// stable key.
    pub fn add_column(&mut self, title: String, sortable: bool) -> (key: usize)
        requires
            old(self).wf(),
        ensures
            final (self).wf(),
            key == old(self).spec_columns().len(),
            final (self).spec_columns() == old(self).spec_columns().push(
                TableColumn { key, title, visible: true, sortable },
            ),
    {
        let key = self.columns.len();
        self.columns.push(TableColumn { key, title, visible: true, sortable });
        key
    }

    /// How many columns are registered.
    pub fn len(&self) -> (r: usize)
        ensures
            r == self.spec_columns().len(),
    {
        self.columns.len()
    }

    /// The column registered under `key`, as a copy.
    pub fn column(&self, key: usize) -> (r: TableColumn)
        requires
            self.wf(),
            key < self.spec_columns().len(),
        ensures
            r == self.spec_columns()[key as int],
    {
        copy_column(&self.columns[key])
    }

    /// Show or hide the column registered under `key`. A key that was
    /// never assigned changes nothing.
    pub fn set_visible(&mut self, key: usize, visible: bool)
        requires
            old(self).wf(),
        ensures
            final (self).wf(),
            key < old(self).spec_columns().len() ==> final (self).spec_columns() == old(
                self,
            ).spec_columns().update(
                key as int,
                TableColumn { visible, ..old(self).spec_columns()[key as int] },
            ),
            key >= old(self).spec_columns().len() ==> final (self).spec_columns() == old(
                self,
            ).spec_columns(),
    {
        if key < self.columns.len() {
            let title = self.columns[key].title.clone();
            let sortable = self.columns[key].sortable;
            self.columns.set(key, TableColumn { key, title, visible, sortable });
        }
    }

    /// Flip the visibility of the column registered under `key` (the
    /// checkbox in the column-visibility dropdown). A key that was never
    /// assigned changes nothing.
    pub fn toggle_visible(&mut self, key: usize)
        requires
            old(self).wf(),
        ensures
            final (self).wf(),
            key < old(self).spec_columns().len() ==> final (self).spec_columns() == old(
                self,
            ).spec_columns().update(
                key as int,
                TableColumn {
                    visible: !old(self).spec_columns()[key as int].visible,
                    ..old(self).spec_columns()[key as int]
                },
            ),
            key >= old(self).spec_columns().len() ==> final (self).spec_columns() == old(
                self,
            ).spec_columns(),
    {
        if key < self.columns.len() {
            let visible = !self.columns[key].visible;
            self.set_visible(key, visible);
        }
    }

    /// The ordered sublist of columns currently shown.
    pub fn visible_columns(&self) -> (r: Vec<TableColumn>)
        ensures
            r@ == self.spec_columns().filter(|c: TableColumn| c.visible),
    {
        let mut out: Vec<TableColumn> = Vec::new();
        let mut i: usize = 0;
        proof {
            assert(self.columns@.take(0int).filter(|c: TableColumn| c.visible) =~= Seq::<
                TableColumn,
            >::empty());
        }
        while i < self.columns.len()
            invariant
                i <= self.columns@.len(),
                out@ == self.columns@.take(i as int).filter(|c: TableColumn| c.visible),
            decreases self.columns@.len() - i,
        {
            let ghost prev = out@;
            if self.columns[i].visible {
                out.push(copy_column(&self.columns[i]));
            }
            proof {
                assert(self.columns@.take(i + 1) =~= self.columns@.take(i as int).push(
                    self.columns@[i as int],
                ));
                self.columns@.take(i as int).lemma_filter_push(
                    self.columns@[i as int],
                    (|c: TableColumn| c.visible),
                );
            }
            i = i + 1;
        }
        proof {
            assert(self.columns@.take(self.columns@.len() as int) =~= self.columns@);
        }
        out
    }

    /// The ordered sublist of columns rows can be ordered by.
    pub fn sortable_columns(&self) -> (r: Vec<TableColumn>)
        ensures
            r@ == self.spec_columns().filter(|c: TableColumn| c.sortable),
    {
        let mut out: Vec<TableColumn> = Vec::new();
        let mut i: usize = 0;
        proof {
            assert(self.columns@.take(0int).filter(|c: TableColumn| c.sortable) =~= Seq::<
                TableColumn,
            >::empty());
        }
        while i < self.columns.len()
            invariant
                i <= self.columns@.len(),
                out@ == self.columns@.take(i as int).filter(|c: TableColumn| c.sortable),
            decreases self.columns@.len() - i,
        {
            if self.columns[i].sortable {
                out.push(copy_column(&self.columns[i]));
            }
            proof {
                assert(self.columns@.take(i + 1) =~= self.columns@.take(i as int).push(
                    self.columns@[i as int],
                ));
                self.columns@.take(i as int).lemma_filter_push(
                    self.columns@[i as int],
                    (|c: TableColumn| c.sortable),
                );
            }
            i = i + 1;
        }
        proof {
            assert(self.columns@.take(self.columns@.len() as int) =~= self.columns@);
        }
        out
    }

    /// How many columns are currently shown.
    pub fn visible_count(&self) -> (r: usize)
        ensures
            r == self.spec_columns().filter(|c: TableColumn| c.visible).len(),
    {
        let visible = self.visible_columns();
        visible.len()
    }

    /// The label of the visibility dropdown: how many of the registered
    /// columns are shown.
    pub fn visibility_summary(&self) -> (r: String)
        ensures
            r@ == crate::numbers::spec_digits(
                self.spec_columns().filter(|c: TableColumn| c.visible).len() as int,
            ) + "/"@ + crate::numbers::spec_digits(self.spec_columns().len() as int) + " Columns"@,
    {
        let visible = self.visible_count();
        let mut out = crate::numbers::u64_to_string(visible as u64);
        out.append("/");
        let total_text = crate::numbers::u64_to_string(self.columns.len() as u64);
        out.append(total_text.as_str());
        out.append(" Columns");
        out
    }
}

} // verus!
