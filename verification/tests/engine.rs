use datatable::columns::ColumnRegistry;
use datatable::engine::{
    render_body, same_key, selection_summary, sort_column_param, sort_order_param,
    DataTableEngine, LoadPhase, TableBody,
};
use datatable::posts::{PostStatusEnum, PostStruct};
use datatable::sort::SortOrder;
use datatable::engine::posts_query;
use datatable::posts::build_post_request;

fn make_post(id: u32, title: &str) -> PostStruct {
    PostStruct {
        http_code: None,
        id,
        title: title.to_string(),
        content: String::new(),
        slug: title.to_lowercase(),
        author_id: 1,
        status: PostStatusEnum::Published,
        date_published: Some(0),
        date_created: 0,
        categories: Vec::new(),
    }
}

fn post_registry() -> ColumnRegistry {
    let mut registry = ColumnRegistry::new();
    registry.add_column("Title".to_string(), true);
    registry.add_column("Date Created".to_string(), true);
    registry.add_column("Author".to_string(), true);
    registry.add_column("ID".to_string(), true);
    registry
}

fn loaded_engine() -> DataTableEngine<PostStruct> {
    let mut engine = DataTableEngine::new(post_registry(), 10, 1);
    let key = engine.current_key();
    let data = vec![make_post(1, "a"), make_post(2, "b"), make_post(3, "c")];
    engine.apply_fetch_success(key, data, 3);
    engine
}

#[test]
fn registry_reports_visibility() {
    let mut registry = post_registry();
    assert_eq!(registry.len(), 4);
    assert_eq!(registry.visible_count(), 4);
    registry.set_visible(1, false);
    assert_eq!(registry.visible_count(), 3);
    let visible = registry.visible_columns();
    let names: Vec<&str> = visible.iter().map(|c| c.title.as_str()).collect();
    assert_eq!(names, ["Title", "Author", "ID"]);
    registry.toggle_visible(1);
    assert_eq!(registry.visible_count(), 4);
    assert_eq!(registry.column(1).title, "Date Created");
}

#[test]
fn hidden_columns_keep_their_keys() {
    let mut registry = post_registry();
    registry.set_visible(0, false);
    let visible = registry.visible_columns();
    assert_eq!(visible[0].key, 1);
    assert_eq!(visible[0].title, "Date Created");
}

#[test]
fn sortable_columns_are_the_registered_ones() {
    let mut registry = ColumnRegistry::new();
    registry.add_column("Title".to_string(), true);
    registry.add_column("Slug".to_string(), false);
    registry.add_column("ID".to_string(), true);
    let sortable = registry.sortable_columns();
    let names: Vec<&str> = sortable.iter().map(|c| c.title.as_str()).collect();
    assert_eq!(names, ["Title", "ID"]);
}

#[test]
fn a_fresh_engine_is_loading_and_empty() {
    let engine: DataTableEngine<PostStruct> = DataTableEngine::new(post_registry(), 10, 1);
    assert!(matches!(engine.phase, LoadPhase::Loading));
    assert!(engine.records.is_empty());
    assert_eq!(engine.selection.count(), 0);
    assert_eq!(engine.pagination.current_page, 1);
}

#[test]
fn a_matching_fetch_commits_its_page() {
    let engine = loaded_engine();
    assert!(matches!(engine.phase, LoadPhase::Ready));
    assert_eq!(engine.records.len(), 3);
    assert_eq!(engine.pagination.total_items, 3);
}

#[test]
fn a_stale_fetch_is_discarded() {
    let mut engine = loaded_engine();
    let stale_key = engine.current_key();
    engine.toggle_sort(0);
    let newer_key = engine.current_key();
    assert!(!same_key(&stale_key, &newer_key));
    engine.apply_fetch_success(stale_key, vec![make_post(9, "z")], 1);
    // the superseded page must not overwrite the newer state
    assert!(matches!(engine.phase, LoadPhase::Loading));
    assert_eq!(engine.records.len(), 3);
    assert_eq!(engine.pagination.total_items, 3);
}

#[test]
fn a_fetch_error_keeps_the_shown_rows() {
    let mut engine = loaded_engine();
    let key = engine.current_key();
    engine.apply_fetch_error(key, "HTTP 500".to_string());
    match &engine.phase {
        LoadPhase::Failed(message) => assert_eq!(message, "HTTP 500"),
        _ => panic!("the table must be in the failed state"),
    }
    assert_eq!(engine.records.len(), 3);
}

#[test]
fn a_stale_fetch_error_is_discarded() {
    let mut engine = loaded_engine();
    let stale_key = engine.current_key();
    engine.toggle_sort(1);
    engine.apply_fetch_error(stale_key, "HTTP 500".to_string());
    assert!(matches!(engine.phase, LoadPhase::Loading));
}

#[test]
fn a_new_page_prunes_the_selection() {
    let mut engine = loaded_engine();
    engine.toggle_row(1);
    engine.toggle_row(2);
    assert_eq!(engine.selection.count(), 2);
    let key = engine.current_key();
    engine.apply_fetch_success(key, vec![make_post(2, "b"), make_post(4, "d")], 2);
    assert_eq!(engine.selection.count(), 1);
    assert!(engine.selection.is_selected(2));
    assert!(!engine.selection.is_selected(1));
}

#[test]
fn select_all_and_clear_drive_the_header_checkbox() {
    let mut engine = loaded_engine();
    assert!(!engine.all_rows_selected());
    engine.select_all_rows();
    assert!(engine.all_rows_selected());
    assert_eq!(engine.selection.count(), 3);
    engine.clear_selection();
    assert!(!engine.all_rows_selected());
    assert_eq!(engine.selection.count(), 0);
}

#[test]
fn deleting_confirmed_rows_removes_exactly_those() {
    let mut engine = loaded_engine();
    engine.toggle_row(1);
    engine.toggle_row(2);
    // the backend confirmed only one of the two requested ids
    engine.apply_delete_result(&vec![2]);
    let ids: Vec<u32> = engine.records.iter().map(|p| p.id).collect();
    assert_eq!(ids, [1, 3]);
    assert!(engine.selection.is_selected(1));
    assert!(!engine.selection.is_selected(2));
    assert_eq!(engine.selection.count(), 1);
}

#[test]
fn an_empty_page_renders_one_placeholder_row() {
    let engine: DataTableEngine<PostStruct> = DataTableEngine::new(post_registry(), 10, 1);
    match render_body(&engine.records, &engine.columns, &engine.selection) {
        TableBody::Placeholder { colspan } => assert_eq!(colspan, 5),
        TableBody::Rows(_) => panic!("an empty collection must render the placeholder"),
    }
}

#[test]
fn the_placeholder_spans_the_visible_columns_plus_one() {
    let mut engine: DataTableEngine<PostStruct> = DataTableEngine::new(post_registry(), 10, 1);
    engine.columns.set_visible(0, false);
    engine.columns.set_visible(3, false);
    match render_body(&engine.records, &engine.columns, &engine.selection) {
        TableBody::Placeholder { colspan } => assert_eq!(colspan, 3),
        TableBody::Rows(_) => panic!("an empty collection must render the placeholder"),
    }
}

#[test]
fn rows_carry_ids_and_selection_marks() {
    let mut engine = loaded_engine();
    engine.toggle_row(2);
    match render_body(&engine.records, &engine.columns, &engine.selection) {
        TableBody::Rows(rows) => {
            assert_eq!(rows.len(), 3);
            assert_eq!(rows[0].id, 1);
            assert!(!rows[0].selected);
            assert_eq!(rows[1].id, 2);
            assert!(rows[1].selected);
            assert_eq!(rows[2].id, 3);
            assert!(!rows[2].selected);
        }
        TableBody::Placeholder { .. } => panic!("records must render as rows"),
    }
}

#[test]
fn the_caption_counts_selection_and_items() {
    assert_eq!(selection_summary(2, 10), "2 selected / 10 items");
    assert_eq!(selection_summary(0, 0), "0 selected / 0 items");
    assert_eq!(selection_summary(123, 4567), "123 selected / 4567 items");
}

#[test]
fn fetch_query_values_name_the_sort() {
    assert_eq!(sort_column_param(Some(0)), "title");
    assert_eq!(sort_column_param(Some(1)), "date_created");
    assert_eq!(sort_column_param(Some(2)), "author");
    assert_eq!(sort_column_param(Some(3)), "id");
    assert_eq!(sort_column_param(None), "id");
    assert_eq!(sort_order_param(SortOrder::Ascending), "asc");
    assert_eq!(sort_order_param(SortOrder::Descending), "desc");
}

#[test]
fn page_changes_reissue_the_fetch_key() {
    let mut engine = loaded_engine();
    let before = engine.current_key();
    let reached = engine.go_to_page(99);
    assert_eq!(reached, 1, "a single page of three items clamps every request to page one");
    let after = engine.current_key();
    assert!(same_key(&before, &after));
    engine.toggle_sort(2);
    assert!(!same_key(&before, &engine.current_key()));
}

#[test]
fn the_fetch_query_names_every_parameter() {
    assert_eq!(posts_query(2, 100, Some(0), SortOrder::Ascending), "?page=2&limit=100&sort=title&order=asc");
    assert_eq!(posts_query(1, 10, None, SortOrder::Descending), "?page=1&limit=10&sort=id&order=desc");
}

#[test]
fn the_create_request_slugs_the_title() {
    let request = build_post_request(
        "Hello".to_string(),
        "Body".to_string(),
        vec![4, 5],
        PostStatusEnum::Draft,
        None,
    );
    assert_eq!(request.post.title, "Hello");
    assert_eq!(request.post.slug, "Hello");
    assert_eq!(request.post.author_id, 1);
    assert_eq!(request.categories_ids, vec![4, 5]);
}

#[test]
fn the_dropdown_label_counts_visible_columns() {
    let mut registry = post_registry();
    assert_eq!(registry.visibility_summary(), "4/4 Columns");
    registry.set_visible(2, false);
    assert_eq!(registry.visibility_summary(), "3/4 Columns");
}
