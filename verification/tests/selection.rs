use datatable::ids::toggle_membership;
use datatable::selection::SelectionState;

#[test]
fn toggle_adds_then_removes() {
    let mut selection = SelectionState::new();
    assert_eq!(selection.count(), 0);
    selection.toggle(7);
    assert!(selection.is_selected(7));
    assert_eq!(selection.count(), 1);
    selection.toggle(7);
    assert!(!selection.is_selected(7));
    assert_eq!(selection.count(), 0);
}

#[test]
fn select_all_then_all_selected() {
    let mut selection = SelectionState::new();
    let ids = vec![1, 2, 3];
    selection.select_all(&ids);
    assert!(selection.is_all_selected(&ids));
    assert_eq!(selection.count(), 3);
}

#[test]
fn clear_then_nothing_selected() {
    let mut selection = SelectionState::new();
    let ids = vec![1, 2, 3];
    selection.select_all(&ids);
    selection.clear();
    assert!(!selection.is_all_selected(&ids));
    assert_eq!(selection.count(), 0);
}

#[test]
fn selecting_all_of_nothing_is_never_all_selected() {
    let mut selection = SelectionState::new();
    let no_ids: Vec<u32> = Vec::new();
    selection.select_all(&no_ids);
    assert!(!selection.is_all_selected(&no_ids));
    assert_eq!(selection.count(), 0);
}

#[test]
fn duplicate_ids_collapse() {
    let mut selection = SelectionState::new();
    let ids = vec![5, 5, 6];
    selection.select_all(&ids);
    assert_eq!(selection.count(), 2);
    assert!(selection.is_all_selected(&ids));
}

#[test]
fn a_partial_selection_is_not_all_selected() {
    let mut selection = SelectionState::new();
    selection.toggle(1);
    let ids = vec![1, 2];
    assert!(!selection.is_all_selected(&ids));
    selection.toggle(2);
    assert!(selection.is_all_selected(&ids));
    selection.toggle(3);
    assert!(!selection.is_all_selected(&ids));
}

#[test]
fn pruning_keeps_only_ids_still_present() {
    let mut selection = SelectionState::new();
    selection.select_all(&vec![1, 2, 3, 4]);
    selection.retain_present(&vec![2, 4, 9]);
    assert_eq!(selection.count(), 2);
    assert!(selection.is_selected(2));
    assert!(selection.is_selected(4));
    assert!(!selection.is_selected(1));
    assert!(!selection.is_selected(3));
}

#[test]
fn removing_confirmed_ids_keeps_the_rest_selected() {
    let mut selection = SelectionState::new();
    selection.select_all(&vec![1, 2, 3]);
    selection.remove_all(&vec![2, 8]);
    assert_eq!(selection.count(), 2);
    assert!(selection.is_selected(1));
    assert!(!selection.is_selected(2));
    assert!(selection.is_selected(3));
}

#[test]
fn selected_ids_list_the_selection_once_each() {
    let mut selection = SelectionState::new();
    selection.select_all(&vec![3, 1, 3, 2]);
    let mut ids = selection.selected_ids();
    ids.sort();
    assert_eq!(ids, vec![1, 2, 3]);
}

#[test]
fn toggling_membership_keeps_the_order() {
    let mut ids = vec![4, 7, 9];
    toggle_membership(&mut ids, 7);
    assert_eq!(ids, vec![4, 9]);
    toggle_membership(&mut ids, 7);
    assert_eq!(ids, vec![4, 9, 7]);
    toggle_membership(&mut ids, 1);
    assert_eq!(ids, vec![4, 9, 7, 1]);
}
