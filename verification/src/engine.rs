//! The data-table engine: the composition of pagination, sort,
//! selection and column state for one record collection, the rows it
//! renders, and the transitions driven by fetch and delete results.
//!
//! The engine is generic over the record type; all it reads from a
//! record is its stable id. Fetches are keyed by page, page size, sort
//! column and direction; a result is committed only when its key still
//! matches the engine's current key, so a superseded request cannot
//! overwrite newer state. The selection is kept pruned to the ids of the
//! records on screen.

use vstd::prelude::*;

use crate::columns::{ColumnRegistry, TableColumn};
use crate::numbers::{spec_digits, u64_to_string};
use crate::pagination::{spec_clamp, PaginationState};
use crate::posts::Id;
use crate::selection::{all_selected, SelectionState};
use crate::sort::{toggled, SortOrder, SortState};

verus! {

/// One row as the table shows it: which record it stands for and
/// whether that record is selected. Cell contents are presentation and
/// stay outside the crate.
#[derive(Clone, Copy, Debug)]
pub struct TableRow {
    pub id: u32,
    pub selected: bool,
}

/// What the table body shows: one row per record, or, when there are no
/// records, exactly one placeholder row spanning all visible columns
/// plus the selection-checkbox column.
#[derive(Clone, Debug)]
pub enum TableBody {
    Rows(Vec<TableRow>),
    Placeholder { colspan: usize },
}

/// Do `rows` mirror `records` under selection `sel`: same length, and
/// row by row the record's id with its selection state?
pub open spec fn rows_reflect<T: Id>(records: Seq<T>, sel: Set<u32>, rows: Seq<TableRow>) -> bool {
    rows.len() == records.len() && forall|i: int|
        0 <= i < records.len() ==> (#[trigger] rows[i]).id == records[i].spec_id() && rows[i].selected
            == sel.contains(records[i].spec_id())
}

/// The ids of the records, in table order.
pub fn record_ids<T: Id>(records: &Vec<T>) -> (r: Vec<u32>)
    ensures
        r@.len() == records@.len(),
        forall|i: int| 0 <= i < records@.len() ==> r@[i] == (#[trigger] records@[i]).spec_id(),
{
    let mut out: Vec<u32> = Vec::new();
    let mut i: usize = 0;
    while i < records.len()
        invariant
            i <= records@.len(),
            out@.len() == i,
            forall|j: int| 0 <= j < i ==> out@[j] == (#[trigger] records@[j]).spec_id(),
        decreases records@.len() - i,
    {
        out.push(records[i].id());
        i = i + 1;
    }
    out
}

/// One row per record, annotated with its selection state.
pub fn render_rows<T: Id>(records: &Vec<T>, selection: &SelectionState) -> (rows: Vec<TableRow>)
    ensures
        rows_reflect(records@, selection@, rows@),
{
    let mut out: Vec<TableRow> = Vec::new();
    let mut i: usize = 0;
    while i < records.len()
        invariant
            i <= records@.len(),
            out@.len() == i,
            forall|j: int|
                0 <= j < i ==> (#[trigger] out@[j]).id == records@[j].spec_id() && out@[j].selected
                    == selection@.contains(records@[j].spec_id()),
        decreases records@.len() - i,
    {
        let id = records[i].id();
        let selected = selection.is_selected(id);
        out.push(TableRow { id, selected });
        i = i + 1;
    }
    out
}

/// The table body for a record collection: its rows, or, when it is
/// empty, exactly one placeholder row spanning every visible column
/// plus the selection column.
pub fn render_body<T: Id>(
    records: &Vec<T>,
    registry: &ColumnRegistry,
    selection: &SelectionState,
) -> (body: TableBody)
    requires
        registry.spec_columns().len() < usize::MAX,
    ensures
        records@.len() == 0 ==> (body matches TableBody::Placeholder { colspan } && colspan as int
            == registry.spec_columns().filter(|c: TableColumn| c.visible).len() + 1),
        records@.len() > 0 ==> (body matches TableBody::Rows(rows) && rows_reflect(
            records@,
            selection@,
            rows@,
        )),
{
    if records.len() == 0 {
        proof {
            registry.spec_columns().lemma_filter_len((|c: TableColumn| c.visible));
        }
        let visible = registry.visible_count();
        TableBody::Placeholder { colspan: visible + 1 }
    } else {
        TableBody::Rows(render_rows(records, selection))
    }
}

/// The caption under the table: how many of the shown items are
/// selected.
pub fn selection_summary(selected: u64, total: u64) -> (r: String)
    ensures
        r@ == spec_digits(selected as int) + " selected / "@ + spec_digits(total as int)
            + " items"@,
{
    let mut out = u64_to_string(selected);
    out.append(" selected / ");
    let total_text = u64_to_string(total);
    out.append(total_text.as_str());
    out.append(" items");
    out
}

/// What one fetch asked for. A response is committed only while its key
/// still equals the engine's current key; anything else is stale and is
/// discarded on arrival.
#[derive(Clone, Copy, Debug)]
pub struct FetchKey {
    pub page: u32,
    pub limit: u32,
    pub sort_column: Option<usize>,
    pub sort_order: SortOrder,
}

/// Field-for-field equality of two fetch keys.
pub fn same_key(a: &FetchKey, b: &FetchKey) -> (r: bool)
    ensures
        r == (*a == *b),
{
    let column_eq = match (a.sort_column, b.sort_column) {
        (None, None) => true,
        (Some(x), Some(y)) => x == y,
        _ => false,
    };
    a.page == b.page && a.limit == b.limit && column_eq && a.sort_order == b.sort_order
}

/// The query value naming the sort column: the post screen's column
/// keys in registration order, with the id as default.
pub open spec fn spec_sort_column_param(column: Option<usize>) -> Seq<char> {
    if column == Some(0usize) {
        "title"@
    } else if column == Some(1usize) {
        "date_created"@
    } else if column == Some(2usize) {
        "author"@
    } else {
        "id"@
    }
}

/// The query value naming the sort column of a fetch.
pub fn sort_column_param(column: Option<usize>) -> (r: String)
    ensures
        r@ == spec_sort_column_param(column),
{
    match column {
        Some(0) => "title".to_owned(),
        Some(1) => "date_created".to_owned(),
        Some(2) => "author".to_owned(),
        _ => "id".to_owned(),
    }
}

/// The query value naming the sort direction.
pub open spec fn spec_sort_order_param(order: SortOrder) -> Seq<char> {
    match order {
        SortOrder::Ascending => "asc"@,
        SortOrder::Descending => "desc"@,
    }
}

/// The query value naming the sort direction of a fetch.
pub fn sort_order_param(order: SortOrder) -> (r: String)
    ensures
        r@ == spec_sort_order_param(order),
{
    match order {
        SortOrder::Ascending => "asc".to_owned(),
        SortOrder::Descending => "desc".to_owned(),
    }
}

/// The query string of one paged fetch: the page, the page size, and
/// the sort column and direction, ready to append to the collection's
/// endpoint.
pub fn posts_query(page: u32, limit: u32, column: Option<usize>, order: SortOrder) -> (r: String)
    ensures
        r@ == "?page="@ + spec_digits(page as int) + "&limit="@ + spec_digits(limit as int)
            + "&sort="@ + spec_sort_column_param(column) + "&order="@ + spec_sort_order_param(
            order,
        ),
{
    let mut out = String::from_str("?page=");
    let page_text = u64_to_string(page as u64);
    out.append(page_text.as_str());
    out.append("&limit=");
    let limit_text = u64_to_string(limit as u64);
    out.append(limit_text.as_str());
    out.append("&sort=");
    let column_text = sort_column_param(column);
    out.append(column_text.as_str());
    out.append("&order=");
    let order_text = sort_order_param(order);
    out.append(order_text.as_str());
    out
}

/// Where the table body stands in its loading lifecycle: waiting for a
/// fetch, showing rows, or showing the error a fetch ended in. The
/// failed state is distinct from both loading and an empty result.
#[derive(Clone, Debug)]
pub enum LoadPhase {
    Loading,
    Ready,
    Failed(String),
}

/// The reactive state behind one data table.
pub struct DataTableEngine<T> {
    pub pagination: PaginationState,
    pub sort: SortState,
    pub selection: SelectionState,
    pub columns: ColumnRegistry,
    pub records: Vec<T>,
    pub phase: LoadPhase,
}

impl<T: Id> DataTableEngine<T> {
    /// Does `id` belong to one of the loaded records?
    pub open spec fn spec_has_record(&self, id: u32) -> bool {
        exists|i: int| 0 <= i < self.records@.len() && (#[trigger] self.records@[i]).spec_id() == id
    }

    /// The component invariants, and: only ids of loaded records are
    /// selected. The selection is pruned whenever the record collection
    /// changes, so a bulk action can never name a row that is not on
    /// screen.
    pub open spec fn wf(&self) -> bool {
        &&& self.pagination.wf()
        &&& self.selection.wf()
        &&& self.columns.wf()
        &&& forall|id: u32| #[trigger] self.selection@.contains(id) ==> self.spec_has_record(id)
    }

    /// The key a fetch for the current state carries.
    pub open spec fn spec_key(&self) -> FetchKey {
        FetchKey {
            page: self.pagination.current_page,
            limit: self.pagination.items_per_page,
            sort_column: self.sort.column,
            sort_order: self.sort.order,
        }
    }

    /// A step that touches neither the records nor the selection keeps
    /// every selected id on screen.
    proof fn selection_cover_carries(pre: Self, post: Self)
        requires
            forall|id: u32| #[trigger] pre.selection@.contains(id) ==> pre.spec_has_record(id),
            post.records == pre.records,
            post.selection == pre.selection,
        ensures
            forall|id: u32| #[trigger] post.selection@.contains(id) ==> post.spec_has_record(id),
    {
        assert forall|id: u32| post.selection@.contains(id) implies post.spec_has_record(id) by {
            assert(pre.selection@.contains(id));
            let i = choose|i: int|
                0 <= i < pre.records@.len() && (#[trigger] pre.records@[i]).spec_id() == id;
            assert(post.records@[i].spec_id() == id);
        };
    }

    /// A fresh engine: no records yet, nothing selected, first fetch
    /// outstanding.
    pub fn new(columns: ColumnRegistry, items_per_page: u32, requested_page: u32) -> (engine: Self)
        requires
            items_per_page >= 1,
            columns.wf(),
        ensures
            engine.wf(),
            engine.columns == columns,
            engine.pagination.items_per_page == items_per_page,
            engine.pagination.total_items == 0,
            engine.pagination.current_page == 1,
            engine.sort.column is None,
            engine.selection@ == Set::<u32>::empty(),
            engine.records@ == Seq::<T>::empty(),
            engine.phase is Loading,
    {
        let engine = DataTableEngine {
            pagination: PaginationState::new(items_per_page, 0, requested_page),
            sort: SortState::new(),
            selection: SelectionState::new(),
            columns,
            records: Vec::new(),
            phase: LoadPhase::Loading,
        };
        proof {
            assert(engine.records@ =~= Seq::<T>::empty());
        }
        engine
    }

    /// The key a fetch for the current state carries.
    pub fn current_key(&self) -> (key: FetchKey)
        ensures
            key == self.spec_key(),
    {
        FetchKey {
            page: self.pagination.current_page,
            limit: self.pagination.items_per_page,
            sort_column: self.sort.column,
            sort_order: self.sort.order,
        }
    }

    /// A click on the header of the column registered under
    /// `column_key`: the sort state steps, a fetch for the new key is
    /// outstanding, and nothing else moves.
    pub fn toggle_sort(&mut self, column_key: usize)
        requires
            old(self).wf(),
        ensures
            final (self).wf(),
            final (self).sort == toggled(old(self).sort, column_key),
            final (self).phase is Loading,
            final (self).pagination == old(self).pagination,
            final (self).selection == old(self).selection,
            final (self).columns == old(self).columns,
            final (self).records == old(self).records,
    {
        self.sort.toggle_sort(column_key);
        self.phase = LoadPhase::Loading;
        proof {
            Self::selection_cover_carries(*old(self), *self);
        }
    }

    /// A click on a page button: the pagination state steps with the
    /// request clamped, a fetch for the new key is outstanding, and the
    /// clamped page is handed back for the address bar.
    pub fn go_to_page(&mut self, requested: u32) -> (page: u32)
        requires
            old(self).wf(),
        ensures
            final (self).wf(),
            page as int == spec_clamp(requested as int, old(self).pagination.spec_total()),
            final (self).pagination == crate::pagination::stepped(
                old(self).pagination,
                requested as int,
            ),
            final (self).phase is Loading,
            final (self).sort == old(self).sort,
            final (self).selection == old(self).selection,
            final (self).columns == old(self).columns,
            final (self).records == old(self).records,
    {
        let page = self.pagination.go_to_page(requested);
        self.phase = LoadPhase::Loading;
        proof {
            Self::selection_cover_carries(*old(self), *self);
        }
        page
    }

    /// The "items per page" select reported a new size: the page size
    /// changes, the current page is corrected against the new page
    /// count, and a fetch for the new key is outstanding.
    pub fn set_items_per_page(&mut self, items_per_page: u32)
        requires
            old(self).wf(),
            items_per_page >= 1,
        ensures
            final (self).wf(),
            final (self).pagination.items_per_page == items_per_page,
            final (self).pagination.total_items == old(self).pagination.total_items,
            final (self).pagination.current_page as int == spec_clamp(
                old(self).pagination.current_page as int,
                crate::pagination::spec_total_pages(
                    old(self).pagination.total_items as int,
                    items_per_page as int,
                ),
            ),
            final (self).phase is Loading,
            final (self).sort == old(self).sort,
            final (self).selection == old(self).selection,
            final (self).columns == old(self).columns,
            final (self).records == old(self).records,
    {
        self.pagination.set_items_per_page(items_per_page);
        self.phase = LoadPhase::Loading;
        proof {
            Self::selection_cover_carries(*old(self), *self);
        }
    }

    /// A click on one row or its checkbox: that record's selection
    /// state flips.
    pub fn toggle_row(&mut self, id: u32)
        requires
            old(self).wf(),
            old(self).spec_has_record(id),
        ensures
            final (self).wf(),
            old(self).selection@.contains(id) ==> final (self).selection@ == old(
                self,
            ).selection@.remove(id),
            !old(self).selection@.contains(id) ==> final (self).selection@ == old(
                self,
            ).selection@.insert(id),
            final (self).pagination == old(self).pagination,
            final (self).sort == old(self).sort,
            final (self).columns == old(self).columns,
            final (self).records == old(self).records,
            final (self).phase == old(self).phase,
    {
        self.selection.toggle(id);
        proof {
            assert forall|other: u32| self.selection@.contains(other) implies self.spec_has_record(
                other,
            ) by {
                if other == id {
                    let i = choose|i: int|
                        0 <= i < old(self).records@.len() && (#[trigger] old(
                            self,
                        ).records@[i]).spec_id() == id;
                    assert(self.records@[i].spec_id() == id);
                } else {
                    assert(old(self).selection@.contains(other));
                    let i = choose|i: int|
                        0 <= i < old(self).records@.len() && (#[trigger] old(
                            self,
                        ).records@[i]).spec_id() == other;
                    assert(self.records@[i].spec_id() == other);
                }
            };
        }
    }

    /// The header checkbox, checked: every record on this page becomes
    /// selected.
    pub fn select_all_rows(&mut self)
        requires
            old(self).wf(),
        ensures
            final (self).wf(),
            forall|id: u32|
                final (self).selection@.contains(id) <==> old(self).spec_has_record(id),
            final (self).pagination == old(self).pagination,
            final (self).sort == old(self).sort,
            final (self).columns == old(self).columns,
            final (self).records == old(self).records,
            final (self).phase == old(self).phase,
    {
        let ids = record_ids(&self.records);
        self.selection.select_all(&ids);
        proof {
            assert forall|id: u32|
                self.selection@.contains(id) <==> old(self).spec_has_record(id) by {
                if ids@.contains(id) {
                    let j = choose|j: int| 0 <= j < ids@.len() && #[trigger] ids@[j] == id;
                    assert(self.records@[j].spec_id() == id);
                    assert(old(self).records@[j].spec_id() == id);
                }
                if old(self).spec_has_record(id) {
                    let j = choose|j: int|
                        0 <= j < old(self).records@.len() && (#[trigger] old(
                            self,
                        ).records@[j]).spec_id() == id;
                    assert(self.records@[j].spec_id() == id);
                    assert(ids@[j] == id);
                }
            };
            assert forall|id: u32| self.selection@.contains(id) implies self.spec_has_record(
                id,
            ) by {
                assert(ids@.contains(id));
                let j = choose|j: int| 0 <= j < ids@.len() && #[trigger] ids@[j] == id;
                assert(self.records@[j].spec_id() == id);
            };
        }
    }

    /// The header checkbox, unchecked: nothing stays selected.
    pub fn clear_selection(&mut self)
        requires
            old(self).wf(),
        ensures
            final (self).wf(),
            final (self).selection@ == Set::<u32>::empty(),
            final (self).pagination == old(self).pagination,
            final (self).sort == old(self).sort,
            final (self).columns == old(self).columns,
            final (self).records == old(self).records,
            final (self).phase == old(self).phase,
    {
        self.selection.clear();
    }

    /// Does the header checkbox show checked: is every record of this
    /// page selected, and at least one?
    pub fn all_rows_selected(&self) -> (r: bool)
        requires
            self.wf(),
        ensures
            r == all_selected(
                self.selection@,
                Seq::new(self.records@.len(), |i: int| self.records@[i].spec_id()),
            ),
    {
        let ids = record_ids(&self.records);
        proof {
            assert(ids@ =~= Seq::new(self.records@.len(), |i: int| self.records@[i].spec_id()));
        }
        self.selection.is_all_selected(&ids)
    }

    /// A fetch answered with a page of records. A stale key leaves the
    /// state untouched; the current key commits the page: the records
    /// are replaced, the item count and with it the current page are
    /// corrected, ids that left the screen fall out of the selection,
    /// and the table is ready.
    pub fn apply_fetch_success(&mut self, key: FetchKey, data: Vec<T>, total_items: u32)
        requires
            old(self).wf(),
        ensures
            final (self).wf(),
            key != old(self).spec_key() ==> *final (self) == *old(self),
            key == old(self).spec_key() ==> {
                &&& final (self).records == data
                &&& final (self).pagination.total_items == total_items
                &&& final (self).pagination.items_per_page == old(self).pagination.items_per_page
                &&& final (self).selection@ == old(self).selection@.intersect(
                    Seq::new(data@.len(), |i: int| data@[i].spec_id()).to_set(),
                )
                &&& final (self).phase is Ready
                &&& final (self).sort == old(self).sort
                &&& final (self).columns == old(self).columns
            },
    {
        let current = self.current_key();
        if !same_key(&key, &current) {
            return ;
        }
        self.records = data;
        self.pagination.set_total_items(total_items);
        let ids = record_ids(&self.records);
        self.selection.retain_present(&ids);
        self.phase = LoadPhase::Ready;
        proof {
            let target = Seq::new(data@.len(), |i: int| data@[i].spec_id());
            assert forall|i: int| 0 <= i < ids@.len() implies ids@[i] == target[i] by {
                assert(ids@[i] == self.records@[i].spec_id());
            };
            assert(ids@ =~= target);
            assert(ids@.to_set() == target.to_set());
            assert forall|id: u32| self.selection@.contains(id) implies self.spec_has_record(
                id,
            ) by {
                assert(ids@.to_set().contains(id));
                let j = choose|j: int| 0 <= j < ids@.len() && #[trigger] ids@[j] == id;
                assert(self.records@[j].spec_id() == id);
            };
        }
    }

    /// A fetch ended in an error. A stale key leaves the state
    /// untouched; the current key puts the table in the failed state
    /// with that message, and the previously shown records and the
    /// selection stay as they were.
    pub fn apply_fetch_error(&mut self, key: FetchKey, message: String)
        requires
            old(self).wf(),
        ensures
            final (self).wf(),
            key != old(self).spec_key() ==> *final (self) == *old(self),
            key == old(self).spec_key() ==> {
                &&& final (self).phase == LoadPhase::Failed(message)
                &&& final (self).pagination == old(self).pagination
                &&& final (self).sort == old(self).sort
                &&& final (self).selection == old(self).selection
                &&& final (self).columns == old(self).columns
                &&& final (self).records == old(self).records
            },
    {
        let current = self.current_key();
        if !same_key(&key, &current) {
            return ;
        }
        self.phase = LoadPhase::Failed(message);
        proof {
            Self::selection_cover_carries(*old(self), *self);
        }
    }

    /// The backend confirmed a bulk delete: exactly the confirmed ids
    /// leave the record list and the selection; ids the backend did not
    /// confirm stay selected. A failed delete never reaches this point,
    /// so prior state stays intact then.
    pub fn apply_delete_result(&mut self, deleted: &Vec<u32>)
        requires
            old(self).wf(),
        ensures
            final (self).wf(),
            final (self).records@ == old(self).records@.filter(
                (|t: T| !deleted@.contains(t.spec_id())),
            ),
            final (self).selection@ == old(self).selection@.difference(deleted@.to_set()),
            final (self).pagination == old(self).pagination,
            final (self).sort == old(self).sort,
            final (self).columns == old(self).columns,
            final (self).phase == old(self).phase,
    {
        let ghost orig = self.records@;
        let mut i: usize = 0;
        let ghost mut g: int = 0;
        proof {
            assert(orig.take(0int).filter(|t: T| !deleted@.contains(t.spec_id())) =~= Seq::<
                T,
            >::empty());
            assert(self.records@ =~= orig.take(0int).filter(
                |t: T| !deleted@.contains(t.spec_id()),
            ) + orig.skip(0int));
        }
        while i < self.records.len()
            invariant
                0 <= g <= orig.len(),
                self.records@ == orig.take(g).filter(|t: T| !deleted@.contains(t.spec_id()))
                    + orig.skip(g),
                i as int == orig.take(g).filter(|t: T| !deleted@.contains(t.spec_id())).len(),
                self.pagination == old(self).pagination,
                self.sort == old(self).sort,
                self.selection == old(self).selection,
                self.columns == old(self).columns,
                self.phase == old(self).phase,
            decreases orig.len() - g,
        {
            proof {
                assert(self.records@[i as int] == orig.skip(g)[0]);
                assert(orig.skip(g)[0] == orig[g]);
                assert(orig.take(g + 1) =~= orig.take(g).push(orig[g]));
            }
            let id = self.records[i].id();
            proof {
                assert(id == orig[g].spec_id());
            }
            if crate::ids::contains_id(deleted, id) {
                self.records.remove(i);
                proof {
                    let kept_part = orig.take(g).filter(|t: T| !deleted@.contains(t.spec_id()));
                    (kept_part + orig.skip(g)).remove_ensures(i as int);
                    assert((kept_part + orig.skip(g)).remove(i as int) =~= kept_part + orig.skip(
                        g + 1,
                    ));
                    orig.take(g).lemma_filter_push(
                        orig[g],
                        (|t: T| !deleted@.contains(t.spec_id())),
                    );
                    assert(orig.take(g + 1).filter(|t: T| !deleted@.contains(t.spec_id()))
                        == kept_part);
                    g = g + 1;
                }
            } else {
                proof {
                    let kept_part = orig.take(g).filter(|t: T| !deleted@.contains(t.spec_id()));
                    orig.take(g).lemma_filter_push(
                        orig[g],
                        (|t: T| !deleted@.contains(t.spec_id())),
                    );
                    assert(orig.take(g + 1).filter(|t: T| !deleted@.contains(t.spec_id()))
                        == kept_part.push(orig[g]));
                    assert(kept_part + orig.skip(g) =~= kept_part.push(orig[g]) + orig.skip(
                        g + 1,
                    ));
                    g = g + 1;
                }
                i = i + 1;
            }
        }
        proof {
            assert(orig.skip(g).len() == orig.len() - g);
            assert(g == orig.len());
            assert(orig.take(g) =~= orig);
            assert(self.records@ =~= orig.filter(|t: T| !deleted@.contains(t.spec_id())));
        }
        self.selection.remove_all(deleted);
        proof {
            assert(self.selection@ == old(self).selection@.difference(deleted@.to_set()));
            assert forall|id: u32| self.selection@.contains(id) implies self.spec_has_record(
                id,
            ) by {
                assert(old(self).selection@.contains(id));
                assert(!deleted@.to_set().contains(id));
                let idx = choose|idx: int|
                    0 <= idx < old(self).records@.len() && (#[trigger] old(
                        self,
                    ).records@[idx]).spec_id() == id;
                assert(orig[idx].spec_id() == id);
                orig.lemma_filter_contains((|t: T| !deleted@.contains(t.spec_id())), idx);
                assert(self.records@.contains(orig[idx]));
                let jdx = choose|jdx: int|
                    0 <= jdx < self.records@.len() && #[trigger] self.records@[jdx] == orig[idx];
                assert(self.records@[jdx].spec_id() == id);
            };
        }
    }
}

} // verus!
