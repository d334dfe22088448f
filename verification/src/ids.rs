//! Small verified helpers on vectors of record identifiers.
//!
//! The selection and deletion logic works with plain `Vec<u32>` id lists;
//! these functions give membership tests and duplicate-free rebuilds with
//! contracts phrased over `Seq::contains`.

use vstd::prelude::*;

verus! {

/// Linear membership test.
pub fn contains_id(ids: &Vec<u32>, id: u32) -> (r: bool)
    ensures
        r == ids@.contains(id),
{
    let mut i: usize = 0;
    while i < ids.len()
        invariant
            i <= ids@.len(),
            forall|j: int| 0 <= j < i ==> ids@[j] != id,
        decreases ids@.len() - i,
    {
        if ids[i] == id {
            return true;
        }
        i = i + 1;
    }
    false
}

/// Do all elements of `a` occur in `b`?
pub fn all_contained(a: &Vec<u32>, b: &Vec<u32>) -> (r: bool)
    ensures
        r == (forall|j: int| 0 <= j < a@.len() ==> b@.contains(a@[j])),
{
    let mut i: usize = 0;
    while i < a.len()
        invariant
            i <= a@.len(),
            forall|j: int| 0 <= j < i ==> b@.contains(a@[j]),
        decreases a@.len() - i,
    {
        if !contains_id(b, a[i]) {
            return false;
        }
        i = i + 1;
    }
    true
}

/// The elements of `ids`, each kept once, in order of first occurrence.
pub fn dedup_ids(ids: &Vec<u32>) -> (r: Vec<u32>)
    ensures
        forall|x: u32| r@.contains(x) <==> ids@.contains(x),
        r@.no_duplicates(),
{
    let mut out: Vec<u32> = Vec::new();
    let mut i: usize = 0;
    while i < ids.len()
        invariant
            i <= ids@.len(),
            forall|x: u32| out@.contains(x) <==> ids@.take(i as int).contains(x),
            out@.no_duplicates(),
        decreases ids@.len() - i,
    {
        let ghost prev = out@;
        let id = ids[i];
        if !contains_id(&out, id) {
            out.push(id);
            proof {
                lemma_no_duplicates_push(prev, id);
            }
        }
        proof {
            assert forall|x: u32| out@.contains(x) <==> ids@.take(i + 1).contains(x) by {
                lemma_contains_take_step(ids@, i as int, x);
                lemma_contains_push(prev, id, x);
            };
        }
        i = i + 1;
    }
    proof {
        assert(ids@.take(ids@.len() as int) =~= ids@);
    }
    out
}

/// The elements of `ids` that also occur in `keep`, in their original
/// order.
pub fn keep_contained(ids: &Vec<u32>, keep: &Vec<u32>) -> (r: Vec<u32>)
    ensures
        forall|x: u32| r@.contains(x) <==> (ids@.contains(x) && keep@.contains(x)),
        ids@.no_duplicates() ==> r@.no_duplicates(),
{
    let mut out: Vec<u32> = Vec::new();
    let mut i: usize = 0;
    while i < ids.len()
        invariant
            i <= ids@.len(),
            forall|x: u32|
                out@.contains(x) <==> (ids@.take(i as int).contains(x) && keep@.contains(x)),
            ids@.no_duplicates() ==> out@.no_duplicates(),
        decreases ids@.len() - i,
    {
        let ghost prev = out@;
        let id = ids[i];
        proof {
            if ids@.no_duplicates() {
                lemma_no_duplicates_take_excludes(ids@, i as int);
            }
        }
        if contains_id(keep, id) {
            out.push(id);
            proof {
                if ids@.no_duplicates() {
                    lemma_no_duplicates_push(prev, id);
                }
            }
        }
        proof {
            assert forall|x: u32|
                out@.contains(x) <==> (ids@.take(i + 1).contains(x) && keep@.contains(x)) by {
                lemma_contains_take_step(ids@, i as int, x);
                lemma_contains_push(prev, id, x);
            };
        }
        i = i + 1;
    }
    proof {
        assert(ids@.take(ids@.len() as int) =~= ids@);
    }
    out
}

/// The elements of `ids` that do not occur in `banned`, in their original
/// order.
pub fn drop_contained(ids: &Vec<u32>, banned: &Vec<u32>) -> (r: Vec<u32>)
    ensures
        forall|x: u32| r@.contains(x) <==> (ids@.contains(x) && !banned@.contains(x)),
        ids@.no_duplicates() ==> r@.no_duplicates(),
{
    let mut out: Vec<u32> = Vec::new();
    let mut i: usize = 0;
    while i < ids.len()
        invariant
            i <= ids@.len(),
            forall|x: u32|
                out@.contains(x) <==> (ids@.take(i as int).contains(x) && !banned@.contains(x)),
            ids@.no_duplicates() ==> out@.no_duplicates(),
        decreases ids@.len() - i,
    {
        let ghost prev = out@;
        let id = ids[i];
        proof {
            if ids@.no_duplicates() {
                lemma_no_duplicates_take_excludes(ids@, i as int);
            }
        }
        if !contains_id(banned, id) {
            out.push(id);
            proof {
                if ids@.no_duplicates() {
                    lemma_no_duplicates_push(prev, id);
                }
            }
        }
        proof {
            assert forall|x: u32|
                out@.contains(x) <==> (ids@.take(i + 1).contains(x) && !banned@.contains(x)) by {
                lemma_contains_take_step(ids@, i as int, x);
                lemma_contains_push(prev, id, x);
            };
        }
        i = i + 1;
    }
    proof {
        assert(ids@.take(ids@.len() as int) =~= ids@);
    }
    out
}

/// Flip whether `id` belongs to an ordered id list (a category or tag
/// assignment): take it out wherever it occurs if it is there, append it
/// if it is not. The order of the other ids is kept.
pub fn toggle_membership(ids: &mut Vec<u32>, id: u32)
    ensures
        old(ids)@.contains(id) ==> final (ids)@ == old(ids)@.filter(|x: u32| x != id),
        !old(ids)@.contains(id) ==> final (ids)@ == old(ids)@.push(id),
{
    if contains_id(ids, id) {
        let ghost orig = ids@;
        let mut out: Vec<u32> = Vec::new();
        let mut i: usize = 0;
        proof {
            assert(orig.take(0int).filter(|x: u32| x != id) =~= Seq::<u32>::empty());
        }
        while i < ids.len()
            invariant
                i <= ids@.len(),
                ids@ == orig,
                out@ == orig.take(i as int).filter(|x: u32| x != id),
            decreases ids@.len() - i,
        {
            if ids[i] != id {
                out.push(ids[i]);
            }
            proof {
                assert(orig.take(i + 1) =~= orig.take(i as int).push(orig[i as int]));
                orig.take(i as int).lemma_filter_push(orig[i as int], (|x: u32| x != id));
            }
            i = i + 1;
        }
        proof {
            assert(orig.take(orig.len() as int) =~= orig);
        }
        *ids = out;
    } else {
        ids.push(id);
    }
}

/// One step of a prefix walk: the next prefix is the current one with the
/// next element pushed.
proof fn lemma_take_step(s: Seq<u32>, i: int)
    requires
        0 <= i < s.len(),
    ensures
        s.take(i + 1) =~= s.take(i).push(s[i]),
{
}

/// Membership in the next prefix is membership in the current one or
/// equality with the next element.
proof fn lemma_contains_take_step(s: Seq<u32>, i: int, x: u32)
    requires
        0 <= i < s.len(),
    ensures
        s.take(i + 1).contains(x) <==> (s.take(i).contains(x) || s[i] == x),
{
    lemma_take_step(s, i);
    lemma_contains_push(s.take(i), s[i], x);
}

/// Membership after a push is membership before, or equality with the
/// pushed element.
pub proof fn lemma_contains_push(s: Seq<u32>, x: u32, y: u32)
    ensures
        s.push(x).contains(y) <==> (s.contains(y) || x == y),
{
    if s.contains(y) {
        let j = choose|j: int| 0 <= j < s.len() && #[trigger] s[j] == y;
        assert(s.push(x)[j] == y);
    }
    assert(s.push(x)[s.len() as int] == x);
    if s.push(x).contains(y) {
        let j = choose|j: int| 0 <= j < s.push(x).len() && #[trigger] s.push(x)[j] == y;
        if j < s.len() {
            assert(s[j] == y);
        }
    }
}

/// Pushing an element that is not yet present keeps a sequence
/// duplicate-free.
pub proof fn lemma_no_duplicates_push(s: Seq<u32>, x: u32)
    requires
        s.no_duplicates(),
        !s.contains(x),
    ensures
        s.push(x).no_duplicates(),
{
    assert forall|i: int, j: int|
        0 <= i < s.push(x).len() && 0 <= j < s.push(x).len() && i != j implies s.push(x)[i]
        != s.push(x)[j] by {
        if i < s.len() && j < s.len() {
        } else if i < s.len() {
            assert(s[i] == s.push(x)[i]);
        } else if j < s.len() {
            assert(s[j] == s.push(x)[j]);
        }
    };
}

/// In a duplicate-free sequence, the element at `i` does not occur in the
/// prefix before `i`.
proof fn lemma_no_duplicates_take_excludes(s: Seq<u32>, i: int)
    requires
        s.no_duplicates(),
        0 <= i < s.len(),
    ensures
        !s.take(i).contains(s[i]),
{
    if s.take(i).contains(s[i]) {
        let j = choose|j: int| 0 <= j < i && #[trigger] s.take(i)[j] == s[i];
        assert(s[j] == s[i]);
    }
}

} // verus!
