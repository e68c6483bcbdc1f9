use todo_list::batch::{descending_below, names_position, remove_positions};
use todo_list::store::TodoApp;

fn store_with(descriptions: &[&str]) -> TodoApp {
    let mut store = TodoApp::default();
    for d in descriptions {
        assert!(store.add_task(d.to_string()));
    }
    store
}

fn descriptions(store: &TodoApp) -> Vec<String> {
    store.tasks().iter().map(|t| t.description.clone()).collect()
}

#[test]
fn batch_delete_of_first_and_last_leaves_the_middle() {
    let mut store = store_with(&["a", "b", "c"]);
    let count = store.delete_tasks(&vec![0, 2]);
    assert_eq!(count, 2);
    assert_eq!(descriptions(&store), vec!["b"]);
}

#[test]
fn batch_delete_does_not_depend_on_the_order_collected() {
    let mut store = store_with(&["a", "b", "c"]);
    let count = store.delete_tasks(&vec![2, 0]);
    assert_eq!(count, 2);
    assert_eq!(descriptions(&store), vec!["b"]);
}

#[test]
fn batch_delete_passes_over_repeats_and_strangers() {
    let mut store = store_with(&["a", "b", "c", "d"]);
    let count = store.delete_tasks(&vec![1, 9, 1, 3, 4]);
    assert_eq!(count, 2);
    assert_eq!(descriptions(&store), vec!["a", "c"]);
}

#[test]
fn batch_delete_of_nothing_changes_nothing() {
    let mut store = store_with(&["a", "b"]);
    store.begin_edit(1);
    assert_eq!(store.delete_tasks(&Vec::new()), 0);
    assert_eq!(descriptions(&store), vec!["a", "b"]);
    assert_eq!(store.selected_task(), Some(1));
}

#[test]
fn batch_delete_clears_a_slot_on_a_removed_task() {
    let mut store = store_with(&["a", "b", "c"]);
    store.begin_edit(2);
    store.delete_tasks(&vec![2, 0]);
    assert_eq!(store.selected_task(), None);
}

#[test]
fn batch_delete_pulls_back_a_slot_that_no_longer_fits() {
    let mut store = store_with(&["a", "b", "c", "d"]);
    store.begin_edit(3);
    store.delete_tasks(&vec![0, 1]);
    assert_eq!(descriptions(&store), vec!["c", "d"]);
    assert_eq!(store.selected_task(), Some(1));
}

#[test]
fn batch_delete_leaves_a_slot_that_still_fits() {
    let mut store = store_with(&["a", "b", "c", "d"]);
    store.begin_edit(1);
    store.delete_tasks(&vec![3, 0]);
    assert_eq!(descriptions(&store), vec!["b", "c"]);
    assert_eq!(store.selected_task(), Some(1));
}

#[test]
fn batch_delete_equals_single_deletes_greatest_first() {
    let mut batch = store_with(&["a", "b", "c", "d", "e"]);
    let mut single = store_with(&["a", "b", "c", "d", "e"]);
    batch.delete_tasks(&vec![1, 4, 2]);
    single.delete_task(4);
    single.delete_task(2);
    single.delete_task(1);
    assert_eq!(batch, single);
}

#[test]
fn descending_below_sorts_drops_repeats_and_strangers() {
    assert_eq!(descending_below(&vec![3, 1, 7, 3, 0, 5], 6), vec![5, 3, 1, 0]);
    assert_eq!(descending_below(&vec![4, 4], 4), Vec::<usize>::new());
    assert_eq!(descending_below(&Vec::new(), 10), Vec::<usize>::new());
}

#[test]
fn names_position_looks_the_position_up() {
    assert!(names_position(&vec![4, 2, 9], 2));
    assert!(!names_position(&vec![4, 2, 9], 3));
    assert!(!names_position(&Vec::new(), 0));
}

#[test]
fn remove_positions_keeps_the_rest_in_order() {
    let mut items = vec!['a', 'b', 'c', 'd', 'e'];
    let count = remove_positions(&mut items, &vec![3, 0, 3, 8]);
    assert_eq!(count, 2);
    assert_eq!(items, vec!['b', 'c', 'e']);
}
