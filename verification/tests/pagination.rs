use datatable::numbers::{parse_u32, parse_u32_or};
use datatable::pagination::{page_path, visible_page_range, PaginationState};
use datatable::pagination::page_item_class;

#[test]
fn window_pinned_to_left_edge() {
    assert_eq!(visible_page_range(1, 20, 8), (1, 8));
}

#[test]
fn window_pinned_to_right_edge() {
    assert_eq!(visible_page_range(20, 20, 8), (13, 20));
}

#[test]
fn window_centred_in_the_middle() {
    assert_eq!(visible_page_range(10, 20, 8), (6, 13));
}

#[test]
fn window_with_fewer_pages_than_buttons() {
    assert_eq!(visible_page_range(2, 3, 8), (1, 3));
    assert_eq!(visible_page_range(1, 1, 6), (1, 1));
}

#[test]
fn window_of_one_button() {
    let (start, end) = visible_page_range(5, 9, 1);
    assert!(1 <= start && start <= 5);
    assert!(5 <= end && end <= 9);
    assert!(end - start + 1 <= 1);
}

#[test]
fn window_stays_within_bounds() {
    for total in 1..=12u32 {
        for current in 1..=total {
            for max_visible in 1..=10u32 {
                let (start, end) = visible_page_range(current, total, max_visible);
                assert!(1 <= start && start <= current);
                assert!(current <= end && end <= total);
                assert!(end - start + 1 <= max_visible);
            }
        }
    }
}

#[test]
fn ninety_five_items_make_ten_pages() {
    let mut pagination = PaginationState::new(10, 95, 1);
    assert_eq!(pagination.total_pages(), 10);
    assert_eq!(pagination.go_to_page(11), 10);
    assert_eq!(pagination.current_page, 10);
    assert_eq!(pagination.go_to_page(0), 1);
    assert_eq!(pagination.current_page, 1);
}

#[test]
fn page_count_has_a_floor_of_one() {
    let pagination = PaginationState::new(10, 0, 1);
    assert_eq!(pagination.total_pages(), 1);
    assert_eq!(pagination.current_page, 1);
}

#[test]
fn page_count_is_the_ceiling() {
    assert_eq!(PaginationState::new(10, 100, 1).total_pages(), 10);
    assert_eq!(PaginationState::new(10, 101, 1).total_pages(), 11);
    assert_eq!(PaginationState::new(10, 1, 1).total_pages(), 1);
    assert_eq!(PaginationState::new(1, 7, 1).total_pages(), 7);
}

#[test]
fn going_to_a_page_twice_changes_nothing() {
    let mut first = PaginationState::new(10, 95, 1);
    let reached = first.go_to_page(37);
    let mut second = first;
    let reached_again = second.go_to_page(reached);
    assert_eq!(reached, reached_again);
    assert_eq!(first.current_page, second.current_page);
    assert_eq!(first.total_items, second.total_items);
    assert_eq!(first.items_per_page, second.items_per_page);
}

#[test]
fn shrinking_the_page_size_reclamps_the_page() {
    let mut pagination = PaginationState::new(10, 95, 10);
    assert_eq!(pagination.current_page, 10);
    pagination.set_items_per_page(50);
    assert_eq!(pagination.total_pages(), 2);
    assert_eq!(pagination.current_page, 2);
}

#[test]
fn fewer_items_reclamp_the_page() {
    let mut pagination = PaginationState::new(10, 95, 10);
    pagination.set_total_items(11);
    assert_eq!(pagination.total_pages(), 2);
    assert_eq!(pagination.current_page, 2);
    pagination.set_total_items(0);
    assert_eq!(pagination.current_page, 1);
}

#[test]
fn edge_buttons_enable_exactly_off_the_edges() {
    let mut pagination = PaginationState::new(10, 95, 1);
    assert!(!pagination.can_go_prev());
    assert!(pagination.can_go_next());
    pagination.go_to_page(10);
    assert!(pagination.can_go_prev());
    assert!(!pagination.can_go_next());
}

#[test]
fn page_path_replaces_the_trailing_page_number() {
    assert_eq!(page_path("/rs-admin/posts/page/3", 7), "/rs-admin/posts/page/7");
    assert_eq!(page_path("/rs-admin/posts/page/10", 2), "/rs-admin/posts/page/2");
}

#[test]
fn page_path_appends_where_no_page_number_trails() {
    assert_eq!(page_path("/rs-admin/posts", 2), "/rs-admin/posts/2");
    assert_eq!(page_path("/rs-admin/posts/", 5), "/rs-admin/posts/5");
    assert_eq!(page_path("", 1), "/1");
}

#[test]
fn parse_accepts_plain_numbers() {
    assert_eq!(parse_u32("95"), Some(95));
    assert_eq!(parse_u32("0"), Some(0));
    assert_eq!(parse_u32("007"), Some(7));
    assert_eq!(parse_u32("+7"), Some(7));
    assert_eq!(parse_u32("4294967295"), Some(u32::MAX));
}

#[test]
fn parse_rejects_everything_else() {
    assert_eq!(parse_u32(""), None);
    assert_eq!(parse_u32("+"), None);
    assert_eq!(parse_u32("++7"), None);
    assert_eq!(parse_u32("-1"), None);
    assert_eq!(parse_u32("12a"), None);
    assert_eq!(parse_u32("4294967296"), None);
    assert_eq!(parse_u32("99999999999999999999"), None);
}

#[test]
fn parse_matches_the_standard_library() {
    for text in ["95", "0", "007", "+7", "", "+", "-1", "12a", "4294967295", "4294967296"] {
        assert_eq!(parse_u32(text), text.parse::<u32>().ok(), "on {:?}", text);
    }
}

#[test]
fn invalid_input_falls_back_to_the_default() {
    assert_eq!(parse_u32_or("20", 10), 20);
    assert_eq!(parse_u32_or("many", 10), 10);
    assert_eq!(parse_u32_or("", 1), 1);
}

#[test]
fn pager_items_class_by_state() {
    assert_eq!(page_item_class(false, false), "page-item");
    assert_eq!(page_item_class(true, false), "page-item disabled");
    assert_eq!(page_item_class(false, true), "page-item active");
}
