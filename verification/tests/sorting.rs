use datatable::post_sort::{
    current_sort_value, handle_sort_change, post_le, sort_posts, toggle_sort as toggle_post_sort,
    SortColumn,
};
use datatable::posts::{PostStatusEnum, PostStruct};
use datatable::sort::{SortOrder, SortState};

fn make_post(id: u32, title: &str, author_id: u32, date_created: i64) -> PostStruct {
    PostStruct {
        http_code: None,
        id,
        title: title.to_string(),
        content: String::new(),
        slug: title.to_lowercase(),
        author_id,
        status: PostStatusEnum::Draft,
        date_published: None,
        date_created,
        categories: Vec::new(),
    }
}

fn titles(posts: &[PostStruct]) -> Vec<&str> {
    posts.iter().map(|p| p.title.as_str()).collect()
}

#[test]
fn first_toggle_sorts_ascending() {
    let mut sort = SortState::new();
    assert!(sort.column.is_none());
    sort.toggle_sort(2);
    assert_eq!(sort.column, Some(2));
    assert_eq!(sort.order, SortOrder::Ascending);
}

#[test]
fn toggling_the_same_column_twice_restores_the_direction() {
    let mut sort = SortState::new();
    sort.toggle_sort(1);
    assert_eq!(sort.order, SortOrder::Ascending);
    sort.toggle_sort(1);
    assert_eq!(sort.order, SortOrder::Descending);
    sort.toggle_sort(1);
    assert_eq!(sort.order, SortOrder::Ascending);
}

#[test]
fn toggling_another_column_resets_to_ascending() {
    let mut sort = SortState::new();
    sort.toggle_sort(1);
    sort.toggle_sort(1);
    assert_eq!(sort.order, SortOrder::Descending);
    sort.toggle_sort(3);
    assert_eq!(sort.column, Some(3));
    assert_eq!(sort.order, SortOrder::Ascending);
}

#[test]
fn post_sort_toggle_follows_the_same_machine() {
    let mut column = SortColumn::ID;
    let mut order = SortOrder::Descending;
    toggle_post_sort(&mut column, &mut order, SortColumn::Title);
    assert_eq!(column, SortColumn::Title);
    assert_eq!(order, SortOrder::Ascending);
    toggle_post_sort(&mut column, &mut order, SortColumn::Title);
    assert_eq!(order, SortOrder::Descending);
    toggle_post_sort(&mut column, &mut order, SortColumn::Author);
    assert_eq!(column, SortColumn::Author);
    assert_eq!(order, SortOrder::Ascending);
}

#[test]
fn sort_select_round_trip() {
    let values = [
        "TitleAscending",
        "TitleDescending",
        "IdAscending",
        "IdDescending",
        "DateCreatedAscending",
        "DateCreatedDescending",
        "AuthorAscending",
        "AuthorDescending",
    ];
    for value in values {
        let mut column = SortColumn::Title;
        let mut order = SortOrder::Ascending;
        handle_sort_change(&mut column, &mut order, value);
        assert_eq!(current_sort_value(column, order), value);
    }
}

#[test]
fn unknown_sort_value_falls_back_to_newest_first() {
    let mut column = SortColumn::Title;
    let mut order = SortOrder::Ascending;
    handle_sort_change(&mut column, &mut order, "Nonsense");
    assert_eq!(column, SortColumn::ID);
    assert_eq!(order, SortOrder::Descending);
    assert_eq!(current_sort_value(column, order), "IdDescending");
}

#[test]
fn titles_compare_case_insensitively() {
    let apple = make_post(1, "apple", 1, 10);
    let banana = make_post(2, "Banana", 2, 20);
    // by raw bytes "Banana" would come first; the folded key puts "apple" first
    assert!(post_le(SortColumn::Title, SortOrder::Ascending, &apple, &banana));
    assert!(!post_le(SortColumn::Title, SortOrder::Ascending, &banana, &apple));
}

#[test]
fn sort_by_title_folds_case() {
    let mut posts = vec![
        make_post(1, "Cherry", 1, 1),
        make_post(2, "apple", 2, 2),
        make_post(3, "Banana", 3, 3),
    ];
    sort_posts(&mut posts, SortColumn::Title, SortOrder::Ascending);
    assert_eq!(titles(&posts), ["apple", "Banana", "Cherry"]);
    sort_posts(&mut posts, SortColumn::Title, SortOrder::Descending);
    assert_eq!(titles(&posts), ["Cherry", "Banana", "apple"]);
}

#[test]
fn sort_by_id_both_ways() {
    let mut posts = vec![
        make_post(2, "b", 1, 1),
        make_post(3, "c", 1, 1),
        make_post(1, "a", 1, 1),
    ];
    sort_posts(&mut posts, SortColumn::ID, SortOrder::Ascending);
    assert_eq!(posts.iter().map(|p| p.id).collect::<Vec<_>>(), [1, 2, 3]);
    sort_posts(&mut posts, SortColumn::ID, SortOrder::Descending);
    assert_eq!(posts.iter().map(|p| p.id).collect::<Vec<_>>(), [3, 2, 1]);
}

#[test]
fn sort_by_date_and_author() {
    let mut posts = vec![
        make_post(1, "a", 9, 300),
        make_post(2, "b", 4, 100),
        make_post(3, "c", 7, 200),
    ];
    sort_posts(&mut posts, SortColumn::DateCreated, SortOrder::Ascending);
    assert_eq!(posts.iter().map(|p| p.id).collect::<Vec<_>>(), [2, 3, 1]);
    sort_posts(&mut posts, SortColumn::Author, SortOrder::Descending);
    assert_eq!(posts.iter().map(|p| p.id).collect::<Vec<_>>(), [1, 3, 2]);
}

#[test]
fn sorting_keeps_every_record() {
    let mut posts = vec![
        make_post(5, "e", 1, 1),
        make_post(4, "d", 1, 1),
        make_post(4, "d", 1, 1),
        make_post(1, "a", 1, 1),
    ];
    sort_posts(&mut posts, SortColumn::ID, SortOrder::Ascending);
    assert_eq!(posts.iter().map(|p| p.id).collect::<Vec<_>>(), [1, 4, 4, 5]);
}

#[test]
fn sorting_an_empty_page_is_a_no_op() {
    let mut posts: Vec<PostStruct> = Vec::new();
    sort_posts(&mut posts, SortColumn::Title, SortOrder::Ascending);
    assert!(posts.is_empty());
}
