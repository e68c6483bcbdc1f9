use todo_list::snapshot::Snapshot;
use todo_list::store::{clone_tasks, TodoApp};
use todo_list::task::{Task, Theme};

fn missing() -> Snapshot {
    Snapshot {
        tasks: None,
        new_task: None,
        selected_task: None,
        show_completed: None,
        search_query: None,
        theme: None,
    }
}

fn busy_store() -> TodoApp {
    let mut store = TodoApp::default();
    assert!(store.add_task("Buy milk".to_string()));
    assert!(store.add_task("Walk dog".to_string()));
    store.toggle_completed(0);
    store.begin_edit(1);
    store.set_draft_text("Feed cat".to_string());
    store.set_search_query("dog".to_string());
    store.set_show_completed(true);
    store.toggle_theme();
    store
}

#[test]
fn snapshot_holds_every_field() {
    let snapshot = busy_store().snapshot();
    assert_eq!(
        snapshot,
        Snapshot {
            tasks: Some(vec![
                Task { description: "Buy milk".to_string(), completed: true },
                Task { description: "Walk dog".to_string(), completed: false },
            ]),
            new_task: Some("Feed cat".to_string()),
            selected_task: Some(1),
            show_completed: Some(true),
            search_query: Some("dog".to_string()),
            theme: Some(Theme::Light),
        }
    );
}

#[test]
fn restore_of_snapshot_gives_the_store_back() {
    let store = busy_store();
    assert_eq!(TodoApp::restore(store.snapshot()), store);
    let empty = TodoApp::default();
    assert_eq!(TodoApp::restore(empty.snapshot()), empty);
}

#[test]
fn load_of_snapshot_gives_the_store_back() {
    let store = busy_store();
    assert_eq!(TodoApp::load(Some(store.snapshot())), store);
}

#[test]
fn load_of_nothing_is_the_default_store() {
    assert_eq!(TodoApp::load(None), TodoApp::default());
}

#[test]
fn restore_fills_missing_fields_with_defaults() {
    assert_eq!(TodoApp::restore(missing()), TodoApp::default());
    let mut snapshot = missing();
    snapshot.tasks = Some(vec![Task { description: "a".to_string(), completed: true }]);
    snapshot.new_task = Some("b".to_string());
    snapshot.selected_task = Some(0);
    let store = TodoApp::restore(snapshot);
    assert_eq!(store.tasks().len(), 1);
    assert!(store.tasks()[0].completed);
    assert_eq!(store.new_task(), "b");
    assert_eq!(store.selected_task(), Some(0));
    assert!(!store.show_completed());
    assert_eq!(store.search_query(), "");
    assert_eq!(store.theme(), Theme::Dark);
}

#[test]
fn restore_clears_a_slot_that_points_at_no_task() {
    let mut snapshot = missing();
    snapshot.tasks = Some(vec![Task::new("a".to_string())]);
    snapshot.selected_task = Some(1);
    assert_eq!(TodoApp::restore(snapshot).selected_task(), None);
    let mut snapshot = missing();
    snapshot.selected_task = Some(0);
    assert_eq!(TodoApp::restore(snapshot).selected_task(), None);
}

#[test]
fn clone_tasks_copies_each_task() {
    let tasks = vec![
        Task { description: "a".to_string(), completed: true },
        Task { description: "b".to_string(), completed: false },
    ];
    assert_eq!(clone_tasks(&tasks), tasks);
    assert!(clone_tasks(&Vec::new()).is_empty());
}
