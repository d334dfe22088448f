//! Row-selection state: the set of record identifiers currently marked
//! for a bulk action.
//!
//! The state is viewed as a `Set<u32>`. Its invariant is that ids are
//! stored without duplicates, so the reported count is exactly the
//! cardinality of the set. Callers are expected to prune the set whenever
//! the loaded record collection changes, so that only ids of records
//! still on screen stay selected.

use vstd::prelude::*;

use crate::ids::{all_contained, contains_id, dedup_ids, drop_contained, keep_contained};

verus! {

/// The set of selected record ids.
#[derive(Clone, Debug)]
pub struct SelectionState {
    ids: Vec<u32>,
}

impl View for SelectionState {
    type V = Set<u32>;

    closed spec fn view(&self) -> Set<u32> {
        self.ids@.to_set()
    }
}

/// What "everything on this page is selected" means: the selection is
/// exactly the ids handed in, and it is not empty. Selecting all of an
/// empty id list therefore never counts as "all selected".
pub open spec fn all_selected(sel: Set<u32>, page_ids: Seq<u32>) -> bool {
    sel == page_ids.to_set() && sel.len() != 0
}

impl SelectionState {
    /// The selection is stored without duplicate ids.
    pub closed spec fn wf(&self) -> bool {
        self.ids@.no_duplicates()
    }

    /// An empty selection.
    pub fn new() -> (s: Self)
        ensures
            s@ == Set::<u32>::empty(),
            s.wf(),
    {
        let s = SelectionState { ids: Vec::new() };
        proof {
            assert(s.ids@.to_set() =~= Set::<u32>::empty());
        }
        s
    }

    /// Is this id currently selected?
    pub fn is_selected(&self, id: u32) -> (r: bool)
        ensures
            r == self@.contains(id),
    {
        contains_id(&self.ids, id)
    }

    /// How many ids are selected.
    pub fn count(&self) -> (r: usize)
        requires
            self.wf(),
        ensures
            r == self@.len(),
    {
        proof {
            self.ids@.unique_seq_to_set();
        }
        self.ids.len()
    }

    /// Select `id` if it is not selected, deselect it if it is.
    pub fn toggle(&mut self, id: u32)
        requires
            old(self).wf(),
        ensures
            final (self).wf(),
            old(self)@.contains(id) ==> final (self)@ == old(self)@.remove(id),
            !old(self)@.contains(id) ==> final (self)@ == old(self)@.insert(id),
    {
        if contains_id(&self.ids, id) {
            let mut banned: Vec<u32> = Vec::new();
            banned.push(id);
            let remaining = drop_contained(&self.ids, &banned);
            proof {
                assert(banned@.contains(id)) by {
                    assert(banned@[0] == id);
                };
                assert forall|x: u32| banned@.contains(x) implies x == id by {
                    let j = choose|j: int| 0 <= j < banned@.len() && #[trigger] banned@[j] == x;
                };
                assert(remaining@.to_set() =~= self.ids@.to_set().remove(id));
            }
            self.ids = remaining;
        } else {
            let ghost prev = self.ids@;
            self.ids.push(id);
            proof {
                crate::ids::lemma_no_duplicates_push(prev, id);
                assert forall|x: u32|
                    self.ids@.to_set().contains(x) <==> prev.to_set().insert(id).contains(x) by {
                    crate::ids::lemma_contains_push(prev, id, x);
                };
                assert(self.ids@.to_set() =~= prev.to_set().insert(id));
            }
        }
    }

    /// Replace the selection with exactly the ids handed in (the "select
    /// all" checkbox). Duplicates among `page_ids` collapse.
    pub fn select_all(&mut self, page_ids: &Vec<u32>)
        ensures
            final (self).wf(),
            final (self)@ == page_ids@.to_set(),
    {
        let deduped = dedup_ids(page_ids);
        proof {
            assert(deduped@.to_set() =~= page_ids@.to_set());
        }
        self.ids = deduped;
    }

    /// Empty the selection.
    pub fn clear(&mut self)
        ensures
            final (self).wf(),
            final (self)@ == Set::<u32>::empty(),
    {
        self.ids = Vec::new();
        proof {
            assert(self.ids@.to_set() =~= Set::<u32>::empty());
        }
    }

    /// Is every one of `page_ids` selected, and nothing else, with the
    /// selection non-empty?
    pub fn is_all_selected(&self, page_ids: &Vec<u32>) -> (r: bool)
        requires
            self.wf(),
        ensures
            r == all_selected(self@, page_ids@),
    {
        let r = !self.ids.is_empty() && all_contained(page_ids, &self.ids)
            && all_contained(&self.ids, page_ids);
        proof {
            self.ids@.lemma_cardinality_of_empty_set_is_0();
            if r {
                assert forall|x: u32|
                    self.ids@.to_set().contains(x) <==> page_ids@.to_set().contains(x) by {
                    if self.ids@.contains(x) {
                        let j = choose|j: int|
                            0 <= j < self.ids@.len() && #[trigger] self.ids@[j] == x;
                        assert(page_ids@.contains(self.ids@[j]));
                    }
                    if page_ids@.contains(x) {
                        let j = choose|j: int|
                            0 <= j < page_ids@.len() && #[trigger] page_ids@[j] == x;
                        assert(self.ids@.contains(page_ids@[j]));
                    }
                };
                assert(self.ids@.to_set() =~= page_ids@.to_set());
            } else if self@ == page_ids@.to_set() && self@.len() != 0 {
                assert(self.ids@.len() != 0);
                assert forall|j: int|
                    0 <= j < page_ids@.len() implies self.ids@.contains(page_ids@[j]) by {
                    assert(page_ids@.to_set().contains(page_ids@[j]));
                };
                assert forall|j: int|
                    0 <= j < self.ids@.len() implies page_ids@.contains(self.ids@[j]) by {
                    assert(self.ids@.to_set().contains(self.ids@[j]));
                };
                assert(false);
            }
        }
        r
    }

    /// The selected ids as a plain list, without duplicates (the payload
    /// of a bulk-delete request).
    pub fn selected_ids(&self) -> (r: Vec<u32>)
        requires
            self.wf(),
        ensures
            r@.to_set() == self@,
            r@.no_duplicates(),
    {
        let r = dedup_ids(&self.ids);
        proof {
            assert(r@.to_set() =~= self.ids@.to_set());
        }
        r
    }

    /// Keep only ids that occur in `present`: the pruning step that runs
    /// whenever the loaded record collection changes.
    pub fn retain_present(&mut self, present: &Vec<u32>)
        requires
            old(self).wf(),
        ensures
            final (self).wf(),
            final (self)@ == old(self)@.intersect(present@.to_set()),
    {
        let kept = keep_contained(&self.ids, present);
        proof {
            assert(kept@.to_set() =~= self.ids@.to_set().intersect(present@.to_set()));
        }
        self.ids = kept;
    }

    /// Remove every id that occurs in `removed` (after a confirmed bulk
    /// delete). Ids not in `removed` stay selected.
    pub fn remove_all(&mut self, removed: &Vec<u32>)
        requires
            old(self).wf(),
        ensures
            final (self).wf(),
            final (self)@ == old(self)@.difference(removed@.to_set()),
    {
        let kept = drop_contained(&self.ids, removed);
        proof {
            assert(kept@.to_set() =~= self.ids@.to_set().difference(removed@.to_set()));
        }
        self.ids = kept;
    }
}

/// Replacing the selection with `page_ids` makes `is_all_selected` over
/// those same ids true, provided at least one id was handed in.
pub proof fn lemma_select_all_then_all_selected(page_ids: Seq<u32>)
    requires
        page_ids.len() > 0,
    ensures
        all_selected(page_ids.to_set(), page_ids),
{
    page_ids.lemma_cardinality_of_empty_set_is_0();
}

/// Clearing the selection makes `is_all_selected` false for every
/// non-empty id list.
pub proof fn lemma_clear_then_none_selected(page_ids: Seq<u32>)
    requires
        page_ids.len() > 0,
    ensures
        !all_selected(Set::<u32>::empty(), page_ids),
{
}

} // verus!
