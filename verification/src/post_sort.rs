//! Ordering the post table: the fixed sortable columns of the post
//! screen, the select-control round trip between a sort choice and its
//! option value, and the in-table sort of a loaded page of posts.
//!
//! Server-side ordering (the sort column and direction travel with the
//! fetch) is the authoritative path; `sort_posts` is the in-table sort
//! some screens apply to the page they already hold. Titles are ordered
//! case-insensitively, the other columns by their numeric fields.

use vstd::prelude::*;

use crate::posts::PostStruct;
use crate::sort::{flipped, SortOrder};
use crate::text::{
    bytes_le, lemma_lex_le_total, lemma_lex_le_trans, lex_le, lower_key, lower_key_of, str_eq,
};

verus! {

/// The columns of the post table that rows can be ordered by.
#[derive(Clone, Copy, Debug, PartialEq, Eq, Structural)]
pub enum SortColumn {
    Title,
    DateCreated,
    Author,
    ID,
}

/// React to a click on the header of `column`: flip the direction if
/// `column` is already the active one, otherwise make it active in
/// ascending order. The same machine as `SortState::toggle_sort`, over
/// the post screen's fixed column set, which is never unsorted.
pub fn toggle_sort(sort_column: &mut SortColumn, sort_order: &mut SortOrder, column: SortColumn)
    ensures
        *final (sort_column) == column,
        *final (sort_order) == (if *old(sort_column) == column {
            flipped(*old(sort_order))
        } else {
            SortOrder::Ascending
        }),
{
    if *sort_column == column {
        *sort_order = if matches!(*sort_order, SortOrder::Ascending) {
            SortOrder::Descending
        } else {
            SortOrder::Ascending
        };
    } else {
        *sort_column = column;
        *sort_order = SortOrder::Ascending;
    }
}

/// The option value that names one sort choice.
pub open spec fn spec_sort_value(column: SortColumn, order: SortOrder) -> Seq<char> {
    match (column, order) {
        (SortColumn::Title, SortOrder::Ascending) => "TitleAscending"@,
        (SortColumn::Title, SortOrder::Descending) => "TitleDescending"@,
        (SortColumn::ID, SortOrder::Ascending) => "IdAscending"@,
        (SortColumn::ID, SortOrder::Descending) => "IdDescending"@,
        (SortColumn::DateCreated, SortOrder::Ascending) => "DateCreatedAscending"@,
        (SortColumn::DateCreated, SortOrder::Descending) => "DateCreatedDescending"@,
        (SortColumn::Author, SortOrder::Ascending) => "AuthorAscending"@,
        (SortColumn::Author, SortOrder::Descending) => "AuthorDescending"@,
    }
}

/// The option value of the sort select control that names the current
/// choice.
pub fn current_sort_value(sort_column: SortColumn, sort_order: SortOrder) -> (r: String)
    ensures
        r@ == spec_sort_value(sort_column, sort_order),
{
    match (sort_column, sort_order) {
        (SortColumn::Title, SortOrder::Ascending) => "TitleAscending".to_owned(),
        (SortColumn::Title, SortOrder::Descending) => "TitleDescending".to_owned(),
        (SortColumn::ID, SortOrder::Ascending) => "IdAscending".to_owned(),
        (SortColumn::ID, SortOrder::Descending) => "IdDescending".to_owned(),
        (SortColumn::DateCreated, SortOrder::Ascending) => "DateCreatedAscending".to_owned(),
        (SortColumn::DateCreated, SortOrder::Descending) => "DateCreatedDescending".to_owned(),
        (SortColumn::Author, SortOrder::Ascending) => "AuthorAscending".to_owned(),
        (SortColumn::Author, SortOrder::Descending) => "AuthorDescending".to_owned(),
    }
}

/// The sort choice named by one option value; anything unrecognised
/// falls back to newest-first by id.
pub open spec fn spec_sort_selection(value: Seq<char>) -> (SortColumn, SortOrder) {
    if value == "TitleAscending"@ {
        (SortColumn::Title, SortOrder::Ascending)
    } else if value == "TitleDescending"@ {
        (SortColumn::Title, SortOrder::Descending)
    } else if value == "IdAscending"@ {
        (SortColumn::ID, SortOrder::Ascending)
    } else if value == "IdDescending"@ {
        (SortColumn::ID, SortOrder::Descending)
    } else if value == "DateCreatedAscending"@ {
        (SortColumn::DateCreated, SortOrder::Ascending)
    } else if value == "DateCreatedDescending"@ {
        (SortColumn::DateCreated, SortOrder::Descending)
    } else if value == "AuthorAscending"@ {
        (SortColumn::Author, SortOrder::Ascending)
    } else if value == "AuthorDescending"@ {
        (SortColumn::Author, SortOrder::Descending)
    } else {
        (SortColumn::ID, SortOrder::Descending)
    }
}

/// Apply the sort choice the select control reported.
pub fn handle_sort_change(sort_column: &mut SortColumn, sort_order: &mut SortOrder, value: &str)
    ensures
        *final (sort_column) == spec_sort_selection(value@).0,
        *final (sort_order) == spec_sort_selection(value@).1,
{
    let (column, order) = if str_eq(value, "TitleAscending") {
        (SortColumn::Title, SortOrder::Ascending)
    } else if str_eq(value, "TitleDescending") {
        (SortColumn::Title, SortOrder::Descending)
    } else if str_eq(value, "IdAscending") {
        (SortColumn::ID, SortOrder::Ascending)
    } else if str_eq(value, "IdDescending") {
        (SortColumn::ID, SortOrder::Descending)
    } else if str_eq(value, "DateCreatedAscending") {
        (SortColumn::DateCreated, SortOrder::Ascending)
    } else if str_eq(value, "DateCreatedDescending") {
        (SortColumn::DateCreated, SortOrder::Descending)
    } else if str_eq(value, "AuthorAscending") {
        (SortColumn::Author, SortOrder::Ascending)
    } else if str_eq(value, "AuthorDescending") {
        (SortColumn::Author, SortOrder::Descending)
    } else {
        (SortColumn::ID, SortOrder::Descending)
    };
    *sort_column = column;
    *sort_order = order;
}

/// The select control round-trips: the option value named for a sort
/// choice reads back as exactly that choice.
pub proof fn lemma_sort_value_round_trip(column: SortColumn, order: SortOrder)
    ensures
        spec_sort_selection(spec_sort_value(column, order)) == (column, order),
{
    reveal_strlit("TitleAscending");
    reveal_strlit("TitleDescending");
    reveal_strlit("IdAscending");
    reveal_strlit("IdDescending");
    reveal_strlit("DateCreatedAscending");
    reveal_strlit("DateCreatedDescending");
    reveal_strlit("AuthorAscending");
    reveal_strlit("AuthorDescending");
    assert("TitleAscending"@.len() == 14);
    assert("TitleDescending"@.len() == 15);
    assert("IdAscending"@.len() == 11);
    assert("IdDescending"@.len() == 12);
    assert("DateCreatedAscending"@.len() == 20);
    assert("DateCreatedDescending"@.len() == 21);
    assert("AuthorAscending"@.len() == 15);
    assert("AuthorDescending"@.len() == 16);
    match (column, order) {
        (SortColumn::Title, SortOrder::Ascending) => {},
        (SortColumn::Title, SortOrder::Descending) => {},
        (SortColumn::ID, SortOrder::Ascending) => {},
        (SortColumn::ID, SortOrder::Descending) => {},
        (SortColumn::DateCreated, SortOrder::Ascending) => {},
        (SortColumn::DateCreated, SortOrder::Descending) => {},
        (SortColumn::Author, SortOrder::Ascending) => {
            // the one pair of option values of equal length differs in
            // its first character
            assert("AuthorAscending"@[0] == 'A' && "TitleDescending"@[0] == 'T');
        },
        (SortColumn::Author, SortOrder::Descending) => {},
    }
}

/// Does `a` come no later than `b` under an ascending order by `column`?
/// Titles compare case-insensitively through their lowercased keys.
pub open spec fn spec_post_le_by(column: SortColumn, a: PostStruct, b: PostStruct) -> bool {
    match column {
        SortColumn::Title => lex_le(lower_key_of(a.title@), lower_key_of(b.title@)),
        SortColumn::DateCreated => a.date_created <= b.date_created,
        SortColumn::Author => a.author_id <= b.author_id,
        SortColumn::ID => a.id <= b.id,
    }
}

/// Does `a` come no later than `b` under the chosen column and
/// direction? Descending order is the ascending one with the arguments
/// swapped.
pub open spec fn spec_post_le(
    column: SortColumn,
    order: SortOrder,
    a: PostStruct,
    b: PostStruct,
) -> bool {
    match order {
        SortOrder::Ascending => spec_post_le_by(column, a, b),
        SortOrder::Descending => spec_post_le_by(column, b, a),
    }
}

/// The comparison the table sorts by.
pub fn post_le(column: SortColumn, order: SortOrder, a: &PostStruct, b: &PostStruct) -> (r: bool)
    ensures
        r == spec_post_le(column, order, *a, *b),
{
    let (x, y) = match order {
        SortOrder::Ascending => (a, b),
        SortOrder::Descending => (b, a),
    };
    match column {
        SortColumn::Title => {
            let ka = lower_key(x.title.as_str());
            let kb = lower_key(y.title.as_str());
            bytes_le(&ka, &kb)
        },
        SortColumn::DateCreated => x.date_created <= y.date_created,
        SortColumn::Author => x.author_id <= y.author_id,
        SortColumn::ID => x.id <= y.id,
    }
}

/// Any two posts are comparable under every sort choice.
pub proof fn lemma_post_le_total(column: SortColumn, order: SortOrder, a: PostStruct, b: PostStruct)
    ensures
        spec_post_le(column, order, a, b) || spec_post_le(column, order, b, a),
{
    if column is Title {
        lemma_lex_le_total(lower_key_of(a.title@), lower_key_of(b.title@));
    }
}

/// The order on posts is transitive under every sort choice.
pub proof fn lemma_post_le_trans(
    column: SortColumn,
    order: SortOrder,
    a: PostStruct,
    b: PostStruct,
    c: PostStruct,
)
    requires
        spec_post_le(column, order, a, b),
        spec_post_le(column, order, b, c),
    ensures
        spec_post_le(column, order, a, c),
{
    if column is Title {
        match order {
            SortOrder::Ascending => {
                lemma_lex_le_trans(
                    lower_key_of(a.title@),
                    lower_key_of(b.title@),
                    lower_key_of(c.title@),
                );
            },
            SortOrder::Descending => {
                lemma_lex_le_trans(
                    lower_key_of(c.title@),
                    lower_key_of(b.title@),
                    lower_key_of(a.title@),
                );
            },
        }
    }
}

/// Is `posts` ordered by the chosen column and direction?
pub open spec fn spec_sorted(posts: Seq<PostStruct>, column: SortColumn, order: SortOrder) -> bool {
    forall|i: int, j: int|
        0 <= i < j < posts.len() ==> spec_post_le(column, order, #[trigger] posts[i], #[trigger] posts[j])
}

/// Sort a loaded page of posts by the chosen column and direction: the
/// same records come back, ordered.
pub fn sort_posts(posts: &mut Vec<PostStruct>, column: SortColumn, order: SortOrder)
    ensures
        final (posts)@.len() == old(posts)@.len(),
        final (posts)@.to_multiset() == old(posts)@.to_multiset(),
        spec_sorted(final (posts)@, column, order),
{
    broadcast use vstd::seq_lib::group_to_multiset_ensures;
    broadcast use vstd::multiset::group_multiset_axioms;

    if posts.len() <= 1 {
        return ;
    }
    let mut i: usize = 1;
    while i < posts.len()
        invariant
            1 <= i <= posts@.len(),
            posts@.len() == old(posts)@.len(),
            posts@.to_multiset() == old(posts)@.to_multiset(),
            spec_sorted(posts@.take(i as int), column, order),
        decreases posts@.len() - i,
    {
        let ghost s0 = posts@;
        let mut k: usize = 0;
        while k < i && post_le(column, order, &posts[k], &posts[i])
            invariant
                k <= i < posts@.len(),
                posts@ == s0,
                forall|j: int|
                    0 <= j < k ==> spec_post_le(
                        column,
                        order,
                        #[trigger] posts@[j],
                        posts@[i as int],
                    ),
            decreases i - k,
        {
            k = k + 1;
        }
        let ghost x = s0[i as int];
        proof {
            assert forall|j: int| k <= j < i implies spec_post_le(
                column,
                order,
                x,
                #[trigger] s0[j],
            ) by {
                lemma_post_le_total(column, order, s0[k as int], x);
                assert(spec_post_le(column, order, x, s0[k as int]));
                if j > k {
                    assert(s0.take(i as int)[k as int] == s0[k as int]);
                    assert(s0.take(i as int)[j] == s0[j]);
                    assert(spec_post_le(column, order, s0[k as int], s0[j]));
                    lemma_post_le_trans(column, order, x, s0[k as int], s0[j]);
                }
            };
        }
        let moved = posts.remove(i);
        posts.insert(k, moved);
        proof {
            let s1 = s0.remove(i as int);
            let s2 = s1.insert(k as int, x);
            assert(posts@ == s2);
            s0.remove_ensures(i as int);
            s1.insert_ensures(k as int, x);

            // The same records: removing the element and putting it back
            // leaves the multiset unchanged.
            vstd::seq_lib::to_multiset_remove::<PostStruct>(s0, i as int);
            vstd::seq_lib::to_multiset_insert::<PostStruct>(s1, k as int, x);
            vstd::seq_lib::to_multiset_contains::<PostStruct>(s0, x);
            assert(s0.contains(x)) by {
                assert(s0[i as int] == x);
            };
            assert(s2.to_multiset() =~= s0.to_multiset());

            // The prefix one longer is sorted: everything before the
            // insertion point is at most `x`, everything after it in the
            // old prefix is at least `x`.
            assert forall|p: int, q: int| 0 <= p < q < i + 1 implies spec_post_le(
                column,
                order,
                #[trigger] s2[p],
                #[trigger] s2[q],
            ) by {
                assert(forall|j: int|
                    0 <= j < i ==> #[trigger] s0.take(i as int)[j] == s0[j]);
                if p < k && q < k {
                    assert(s2[p] == s0[p] && s2[q] == s0[q]);
                    assert(spec_post_le(column, order, s0[p], s0[q]));
                } else if p < k && q == k {
                    assert(s2[p] == s0[p] && s2[q] == x);
                } else if p < k {
                    assert(s2[p] == s0[p] && s2[q] == s0[q - 1]);
                    assert(spec_post_le(column, order, s0[p], s0[q - 1]));
                } else if p == k {
                    assert(s2[p] == x && s2[q] == s0[q - 1]);
                } else {
                    assert(s2[p] == s0[p - 1] && s2[q] == s0[q - 1]);
                    assert(spec_post_le(column, order, s0[p - 1], s0[q - 1]));
                }
            };
            assert(spec_sorted(s2.take(i + 1), column, order)) by {
                assert(forall|j: int| 0 <= j < i + 1 ==> #[trigger] s2.take(i + 1)[j] == s2[j]);
            };
        }
        i = i + 1;
    }
    proof {
        assert(posts@.take(posts@.len() as int) =~= posts@);
    }
}

} // verus!
