//! Pagination state: current page, page size, total item count, the
//! derived page count, clamped navigation, the sliding window of page
//! buttons, and the page segment of the address path.
//!
//! Page numbers are 1-based. The page count is the ceiling of
//! `total_items / items_per_page`, with a floor of one page when there
//! are no items, and every navigation request is clamped into
//! `[1, total_pages]` before it takes effect, so the state never points
//! at a page that does not exist.

use vstd::prelude::*;

use crate::numbers::{spec_digits, spec_is_digit, u64_to_string};

verus! {

/// The page count derived from an item count and a page size: the
/// ceiling of their quotient, and one page when there are no items.
pub open spec fn spec_total_pages(total_items: int, items_per_page: int) -> int
    recommends
        items_per_page >= 1,
{
    if total_items == 0 {
        1
    } else if total_items % items_per_page == 0 {
        total_items / items_per_page
    } else {
        total_items / items_per_page + 1
    }
}

/// A navigation request forced into `[1, total_pages]`; a page count
/// under one is treated as one.
pub open spec fn spec_clamp(requested: int, total_pages: int) -> int {
    if total_pages < 1 {
        1
    } else if requested < 1 {
        1
    } else if requested > total_pages {
        total_pages
    } else {
        requested
    }
}

/// The page count is at least one and, when there are items, at most the
/// item count.
pub proof fn lemma_total_pages_bounds(total_items: int, items_per_page: int)
    requires
        items_per_page >= 1,
        total_items >= 0,
    ensures
        1 <= spec_total_pages(total_items, items_per_page),
        spec_total_pages(total_items, items_per_page) <= (if total_items >= 1 {
            total_items
        } else {
            1
        }),
{
    if total_items >= 1 {
        let q = total_items / items_per_page;
        let r = total_items % items_per_page;
        vstd::arithmetic::div_mod::lemma_fundamental_div_mod(total_items, items_per_page);
        vstd::arithmetic::div_mod::lemma_mod_bound(total_items, items_per_page);
        vstd::arithmetic::div_mod::lemma_div_pos_is_pos(total_items, items_per_page);
        if r == 0 {
            assert(1 <= q <= total_items) by (nonlinear_arith)
                requires
                    total_items == items_per_page * q + 0,
                    items_per_page >= 1,
                    q >= 0,
                    total_items >= 1,
            ;
        } else {
            assert(q + 1 <= total_items) by (nonlinear_arith)
                requires
                    total_items == items_per_page * q + r,
                    items_per_page >= 1,
                    q >= 0,
                    r >= 1,
            ;
        }
    }
}

/// The page count is exactly the ceiling: enough pages to hold every
/// item, and every page before the last one full.
pub proof fn lemma_total_pages_is_ceiling(total_items: int, items_per_page: int)
    requires
        items_per_page >= 1,
        total_items >= 0,
    ensures
        total_items <= spec_total_pages(total_items, items_per_page) * items_per_page,
        total_items >= 1 ==> (spec_total_pages(total_items, items_per_page) - 1) * items_per_page
            < total_items,
{
    if total_items >= 1 {
        let q = total_items / items_per_page;
        let r = total_items % items_per_page;
        vstd::arithmetic::div_mod::lemma_fundamental_div_mod(total_items, items_per_page);
        vstd::arithmetic::div_mod::lemma_mod_bound(total_items, items_per_page);
        vstd::arithmetic::div_mod::lemma_div_pos_is_pos(total_items, items_per_page);
        if r == 0 {
            assert(total_items <= q * items_per_page && (q - 1) * items_per_page < total_items)
                by (nonlinear_arith)
                requires
                    total_items == items_per_page * q + 0,
                    items_per_page >= 1,
                    total_items >= 1,
            ;
        } else {
            assert(total_items <= (q + 1) * items_per_page && q * items_per_page < total_items)
                by (nonlinear_arith)
                requires
                    total_items == items_per_page * q + r,
                    items_per_page >= 1,
                    0 < r < items_per_page,
            ;
        }
    } else {
        assert(total_items <= 1 * items_per_page) by (nonlinear_arith)
            requires
                items_per_page >= 1,
                total_items == 0,
        ;
    }
}

/// Current page, page size and item count of one paginated collection.
#[derive(Clone, Copy, Debug)]
pub struct PaginationState {
    pub current_page: u32,
    pub items_per_page: u32,
    pub total_items: u32,
}

/// The state reached from `s` by asking for page `requested`: the
/// request is clamped, everything else stays.
pub open spec fn stepped(s: PaginationState, requested: int) -> PaginationState {
    PaginationState {
        current_page: spec_clamp(requested, s.spec_total()) as u32,
        ..s
    }
}

impl PaginationState {
    /// The derived page count.
    pub open spec fn spec_total(&self) -> int {
        spec_total_pages(self.total_items as int, self.items_per_page as int)
    }

    /// The page size is positive and the current page exists.
    pub open spec fn wf(&self) -> bool {
        self.items_per_page >= 1 && 1 <= self.current_page as int <= self.spec_total()
    }

    /// A state on the requested page, clamped into range.
    pub fn new(items_per_page: u32, total_items: u32, requested_page: u32) -> (s: Self)
        requires
            items_per_page >= 1,
        ensures
            s.wf(),
            s.items_per_page == items_per_page,
            s.total_items == total_items,
            s.current_page as int == spec_clamp(
                requested_page as int,
                spec_total_pages(total_items as int, items_per_page as int),
            ),
    {
        let mut s = PaginationState { current_page: 1, items_per_page, total_items };
        s.go_to_page(requested_page);
        s
    }

    /// The derived page count, at least one.
    pub fn total_pages(&self) -> (r: u32)
        requires
            self.items_per_page >= 1,
        ensures
            r as int == self.spec_total(),
            r >= 1,
    {
        proof {
            lemma_total_pages_bounds(self.total_items as int, self.items_per_page as int);
        }
        if self.total_items == 0 {
            1
        } else {
            let q = self.total_items / self.items_per_page;
            let r = self.total_items % self.items_per_page;
            if r == 0 {
                q
            } else {
                q + 1
            }
        }
    }

    /// Move to the requested page, clamped into `[1, total_pages]`, and
    /// hand back the page actually reached, so that the dependent fetch
    /// and the address bar always see the corrected value, never the raw
    /// request. Asking for a page out of range (page zero from the
    /// "previous" edge, or a stale page number from the address bar) is
    /// therefore a safe no-op at the boundary it oversteps.
    pub fn go_to_page(&mut self, requested: u32) -> (page: u32)
        requires
            old(self).items_per_page >= 1,
        ensures
            *final (self) == stepped(*old(self), requested as int),
            final (self).wf(),
            page == final (self).current_page,
            page as int == spec_clamp(requested as int, old(self).spec_total()),
    {
        let tp = self.total_pages();
        let page = if requested < 1 {
            1
        } else if requested > tp {
            tp
        } else {
            requested
        };
        self.current_page = page;
        page
    }

    /// Record a new item count (a fresh page of data arrived) and
    /// correct the current page if the shrunken page count leaves it
    /// dangling.
    pub fn set_total_items(&mut self, total_items: u32)
        requires
            old(self).items_per_page >= 1,
        ensures
            final (self).wf(),
            final (self).items_per_page == old(self).items_per_page,
            final (self).total_items == total_items,
            final (self).current_page as int == spec_clamp(
                old(self).current_page as int,
                spec_total_pages(total_items as int, old(self).items_per_page as int),
            ),
    {
        self.total_items = total_items;
        let cur = self.current_page;
        self.go_to_page(cur);
    }

    /// Change the page size and correct the current page against the new
    /// page count.
    pub fn set_items_per_page(&mut self, items_per_page: u32)
        requires
            items_per_page >= 1,
        ensures
            final (self).wf(),
            final (self).items_per_page == items_per_page,
            final (self).total_items == old(self).total_items,
            final (self).current_page as int == spec_clamp(
                old(self).current_page as int,
                spec_total_pages(old(self).total_items as int, items_per_page as int),
            ),
    {
        self.items_per_page = items_per_page;
        let cur = self.current_page;
        self.go_to_page(cur);
    }

    /// The "previous" button acts exactly when the first page is left.
    pub fn can_go_prev(&self) -> (r: bool)
        ensures
            r == (self.current_page > 1),
    {
        self.current_page > 1
    }

    /// The "next" button acts exactly when the last page is not reached.
    pub fn can_go_next(&self) -> (r: bool)
        requires
            self.items_per_page >= 1,
        ensures
            r == ((self.current_page as int) < self.spec_total()),
    {
        let tp = self.total_pages();
        self.current_page < tp
    }
}

/// Navigating to the page a navigation just reached changes nothing:
/// clamping is idempotent, so a second `go_to_page` with the corrected
/// value leaves the whole state as it was.
pub proof fn lemma_go_to_page_idempotent(s: PaginationState, requested: int)
    requires
        s.items_per_page >= 1,
    ensures
        stepped(stepped(s, requested), stepped(s, requested).current_page as int) == stepped(
            s,
            requested,
        ),
{
    lemma_total_pages_bounds(s.total_items as int, s.items_per_page as int);
}

/// Where the window of page buttons starts: page one near the left edge,
/// pinned to the right edge when the current page is within half a
/// window of the end, and centred on the current page in between.
pub open spec fn spec_window_start(current: int, total: int, max_visible: int) -> int
    recommends
        max_visible >= 1,
{
    let half = max_visible / 2;
    if current <= half {
        1
    } else if current + half >= total {
        if total - max_visible + 1 >= 1 {
            total - max_visible + 1
        } else {
            1
        }
    } else {
        current - half
    }
}

/// Where the window of page buttons ends: at most `max_visible` buttons,
/// never past the last page.
pub open spec fn spec_window_end(current: int, total: int, max_visible: int) -> int
    recommends
        max_visible >= 1,
{
    let start = spec_window_start(current, total, max_visible);
    if start + max_visible - 1 <= total {
        start + max_visible - 1
    } else {
        total
    }
}

/// The inclusive range of page-number buttons to show, sized to at most
/// `max_visible`, centred on `current` except near the two ends, where
/// it pins to the boundary. An ellipsis and the first or last page
/// button belong before the window when its start is after page one, and
/// after it when its end is before the last page.
pub fn visible_page_range(current: u32, total: u32, max_visible: u32) -> (r: (u32, u32))
    requires
        max_visible >= 1,
    ensures
        r.0 as int == spec_window_start(current as int, total as int, max_visible as int),
        r.1 as int == spec_window_end(current as int, total as int, max_visible as int),
{
    let half = max_visible / 2;
    let start: u32 = if current <= half {
        1
    } else if current as u64 + half as u64 >= total as u64 {
        if total >= max_visible {
            total - max_visible + 1
        } else {
            1
        }
    } else {
        current - half
    };
    let end64 = start as u64 + max_visible as u64 - 1;
    let end: u32 = if end64 <= total as u64 {
        end64 as u32
    } else {
        total
    };
    (start, end)
}

/// Inside the range the specification allows — a window of at least one
/// button, at least one page, a current page that exists — the window
/// contains the current page, stays within the pages, and holds at most
/// `max_visible` buttons.
pub proof fn lemma_window_within_bounds(current: int, total: int, max_visible: int)
    requires
        max_visible >= 1,
        total >= 1,
        1 <= current <= total,
    ensures
        1 <= spec_window_start(current, total, max_visible),
        spec_window_start(current, total, max_visible) <= current,
        current <= spec_window_end(current, total, max_visible),
        spec_window_end(current, total, max_visible) <= total,
        spec_window_end(current, total, max_visible) - spec_window_start(
            current,
            total,
            max_visible,
        ) + 1 <= max_visible,
{
    let half = max_visible / 2;
    assert(0 <= half && 2 * half <= max_visible && half <= max_visible - 1);
}

/// A character the address path sheds when its page segment is replaced:
/// an ASCII digit or a slash.
pub open spec fn spec_page_suffix_char(c: char) -> bool {
    spec_is_digit(c) || c == '/'
}

/// The path with its trailing page segment removed: the longest suffix
/// of digits and slashes is dropped.
pub open spec fn spec_trim_page_suffix(s: Seq<char>) -> Seq<char>
    decreases s.len(),
{
    if s.len() == 0 {
        s
    } else if spec_page_suffix_char(s.last()) {
        spec_trim_page_suffix(s.drop_last())
    } else {
        s
    }
}

/// The CSS class of one pager item: disabled items cannot be followed,
/// and the item for the current page is marked active.
pub open spec fn spec_page_item_class(disabled: bool, active: bool) -> Seq<char> {
    if disabled && active {
        "page-item disabled active"@
    } else if disabled {
        "page-item disabled"@
    } else if active {
        "page-item active"@
    } else {
        "page-item"@
    }
}

/// The CSS class of one pager item.
pub fn page_item_class(disabled: bool, active: bool) -> (r: String)
    ensures
        r@ == spec_page_item_class(disabled, active),
{
    if disabled && active {
        "page-item disabled active".to_owned()
    } else if disabled {
        "page-item disabled".to_owned()
    } else if active {
        "page-item active".to_owned()
    } else {
        "page-item".to_owned()
    }
}

/// Does the address path shed this character when its page segment is
/// replaced?
fn is_page_suffix_char(c: char) -> (r: bool)
    ensures
        r == spec_page_suffix_char(c),
{
    (c >= '0' && c <= '9') || c == '/'
}

/// The address path for `page`: the old trailing page segment (digits
/// and slashes) is dropped and `/` with the page number is put in its
/// place. The caller replaces the current history entry with this path
/// rather than pushing a new one.
pub fn page_path(path: &str, page: u32) -> (r: String)
    ensures
        r@ == spec_trim_page_suffix(path@) + "/"@ + spec_digits(page as int),
{
    let len = path.unicode_len();
    let mut keep: usize = len;
    proof {
        assert(path@.take(len as int) =~= path@);
    }
    while keep > 0 && is_page_suffix_char(path.get_char(keep - 1))
        invariant
            keep <= len,
            len == path@.len(),
            spec_trim_page_suffix(path@) == spec_trim_page_suffix(path@.take(keep as int)),
        decreases keep,
    {
        proof {
            assert(path@.take(keep as int).last() == path@[keep - 1]);
            assert(path@.take(keep as int).drop_last() =~= path@.take(keep - 1));
        }
        keep = keep - 1;
    }
    proof {
        if keep > 0 {
            assert(path@.take(keep as int).last() == path@[keep - 1]);
        }
        assert(spec_trim_page_suffix(path@.take(keep as int)) == path@.take(keep as int));
    }
    let base = path.substring_char(0, keep);
    let mut out = base.to_owned();
    out.append("/");
    let digits = u64_to_string(page as u64);
    out.append(digits.as_str());
    proof {
        assert(base@ == path@.take(keep as int));
    }
    out
}

} // verus!
