use todo_list::store::TodoApp;
use todo_list::task::{Task, Theme};

fn store_with(descriptions: &[&str]) -> TodoApp {
    let mut store = TodoApp::default();
    for d in descriptions {
        assert!(store.add_task(d.to_string()));
    }
    store
}

fn descriptions(store: &TodoApp) -> Vec<String> {
    store.tasks().iter().map(|t| t.description.clone()).collect()
}

#[test]
fn default_store_is_empty_dark_and_hides_completed() {
    let store = TodoApp::default();
    assert!(store.tasks().is_empty());
    assert_eq!(store.new_task(), "");
    assert_eq!(store.selected_task(), None);
    assert!(!store.show_completed());
    assert_eq!(store.search_query(), "");
    assert_eq!(store.theme(), Theme::Dark);
}

#[test]
fn default_theme_is_dark() {
    assert_eq!(Theme::default(), Theme::Dark);
}

#[test]
fn theme_toggles_both_ways() {
    assert_eq!(Theme::Dark.toggled(), Theme::Light);
    assert_eq!(Theme::Light.toggled(), Theme::Dark);
}

#[test]
fn new_task_is_not_completed() {
    let task = Task::new("Buy milk".to_string());
    assert_eq!(task.description, "Buy milk");
    assert!(!task.completed);
    assert_eq!(task.clone(), task);
}

#[test]
fn add_task_appends_one_task_and_clears_draft() {
    let mut store = store_with(&["first"]);
    store.set_draft_text("second".to_string());
    let added = store.add_task("second".to_string());
    assert!(added);
    assert_eq!(store.tasks().len(), 2);
    assert_eq!(store.tasks()[1], Task { description: "second".to_string(), completed: false });
    assert_eq!(store.new_task(), "");
}

#[test]
fn add_task_with_empty_description_changes_nothing() {
    let mut store = store_with(&["first"]);
    store.set_draft_text("typing".to_string());
    let added = store.add_task(String::new());
    assert!(!added);
    assert_eq!(store.tasks().len(), 1);
    assert_eq!(store.new_task(), "typing");
}

#[test]
fn add_task_accepts_a_description_of_blanks() {
    let mut store = TodoApp::default();
    assert!(store.add_task("   ".to_string()));
    assert_eq!(descriptions(&store), vec!["   "]);
}

#[test]
fn surviving_tasks_keep_insertion_order() {
    let mut store = store_with(&["a", "b", "c", "d"]);
    store.delete_task(1);
    assert!(store.add_task("e".to_string()));
    store.delete_task(0);
    assert!(store.add_task("f".to_string()));
    store.delete_task(2);
    assert_eq!(descriptions(&store), vec!["c", "d", "f"]);
}

#[test]
fn toggle_completed_flips_only_that_task() {
    let mut store = store_with(&["a", "b"]);
    store.toggle_completed(1);
    assert!(!store.tasks()[0].completed);
    assert!(store.tasks()[1].completed);
    store.toggle_completed(1);
    assert!(!store.tasks()[1].completed);
    assert_eq!(descriptions(&store), vec!["a", "b"]);
}

#[test]
fn begin_edit_moves_the_slot_and_keeps_typed_text() {
    let mut store = store_with(&["a", "b"]);
    store.begin_edit(0);
    assert_eq!(store.selected_task(), Some(0));
    assert!(store.edit_description("a, half typed".to_string()));
    store.begin_edit(1);
    assert_eq!(store.selected_task(), Some(1));
    assert_eq!(descriptions(&store), vec!["a, half typed", "b"]);
}

#[test]
fn edit_description_without_open_task_does_nothing() {
    let mut store = store_with(&["a"]);
    assert!(!store.edit_description("x".to_string()));
    assert_eq!(descriptions(&store), vec!["a"]);
}

#[test]
fn commit_edit_clears_the_slot_and_accepts_empty_description() {
    let mut store = store_with(&["a"]);
    store.begin_edit(0);
    assert!(store.edit_description(String::new()));
    store.commit_edit();
    assert_eq!(store.selected_task(), None);
    assert_eq!(descriptions(&store), vec![""]);
    store.commit_edit();
    assert_eq!(store.selected_task(), None);
}

#[test]
fn delete_task_shifts_later_tasks_down() {
    let mut store = store_with(&["a", "b", "c"]);
    store.delete_task(0);
    assert_eq!(descriptions(&store), vec!["b", "c"]);
}

#[test]
fn deleting_the_edited_task_clears_the_slot() {
    let mut store = store_with(&["a", "b", "c"]);
    store.begin_edit(1);
    store.delete_task(1);
    assert_eq!(store.selected_task(), None);
    assert_eq!(descriptions(&store), vec!["a", "c"]);
}

#[test]
fn deleting_behind_the_slot_leaves_it() {
    let mut store = store_with(&["a", "b", "c"]);
    store.begin_edit(1);
    store.delete_task(2);
    assert_eq!(store.selected_task(), Some(1));
}

#[test]
fn deleting_before_the_slot_keeps_its_position_while_it_fits() {
    let mut store = store_with(&["a", "b", "c"]);
    store.begin_edit(1);
    store.delete_task(0);
    assert_eq!(store.selected_task(), Some(1));
    assert_eq!(descriptions(&store), vec!["b", "c"]);
}

#[test]
fn deleting_before_a_slot_on_the_last_task_pulls_it_back() {
    let mut store = store_with(&["a", "b", "c"]);
    store.begin_edit(2);
    store.delete_task(0);
    assert_eq!(store.selected_task(), Some(1));
    assert_eq!(store.tasks()[1].description, "c");
}

#[test]
fn clear_completed_removes_exactly_the_completed_tasks() {
    let mut store = store_with(&["a", "b", "c", "d", "e"]);
    store.toggle_completed(0);
    store.toggle_completed(2);
    store.toggle_completed(3);
    store.clear_completed();
    assert_eq!(descriptions(&store), vec!["b", "e"]);
    assert!(store.tasks().iter().all(|t| !t.completed));
}

#[test]
fn clear_completed_without_completed_tasks_keeps_all() {
    let mut store = store_with(&["a", "b"]);
    store.begin_edit(1);
    store.clear_completed();
    assert_eq!(descriptions(&store), vec!["a", "b"]);
    assert_eq!(store.selected_task(), Some(1));
}

#[test]
fn clear_completed_clears_a_slot_on_a_completed_task() {
    let mut store = store_with(&["a", "b"]);
    store.begin_edit(0);
    store.toggle_completed(0);
    store.clear_completed();
    assert_eq!(store.selected_task(), None);
    assert_eq!(descriptions(&store), vec!["b"]);
}

#[test]
fn clear_completed_pulls_back_a_slot_that_no_longer_fits() {
    let mut store = store_with(&["a", "b", "c"]);
    store.begin_edit(2);
    store.toggle_completed(0);
    store.toggle_completed(1);
    store.clear_completed();
    assert_eq!(descriptions(&store), vec!["c"]);
    assert_eq!(store.selected_task(), Some(0));
}

#[test]
fn clear_completed_on_all_completed_empties_the_list() {
    let mut store = store_with(&["a", "b"]);
    store.toggle_completed(0);
    store.toggle_completed(1);
    store.clear_completed();
    assert!(store.tasks().is_empty());
}

#[test]
fn toggle_theme_switches_between_dark_and_light() {
    let mut store = TodoApp::default();
    store.toggle_theme();
    assert_eq!(store.theme(), Theme::Light);
    store.toggle_theme();
    assert_eq!(store.theme(), Theme::Dark);
}

#[test]
fn setters_replace_their_field_only() {
    let mut store = store_with(&["a"]);
    store.set_search_query("milk".to_string());
    store.set_show_completed(true);
    store.set_draft_text("draft".to_string());
    assert_eq!(store.search_query(), "milk");
    assert!(store.show_completed());
    assert_eq!(store.new_task(), "draft");
    assert_eq!(descriptions(&store), vec!["a"]);
    assert_eq!(store.selected_task(), None);
    assert_eq!(store.theme(), Theme::Dark);
}

#[test]
fn completed_tasks_counts_the_done_ones() {
    let mut store = store_with(&["a", "b", "c"]);
    assert_eq!(store.completed_tasks(), 0);
    store.toggle_completed(0);
    store.toggle_completed(2);
    assert_eq!(store.completed_tasks(), 2);
}

#[test]
fn progress_percent_of_empty_store_is_zero() {
    let store = TodoApp::default();
    assert_eq!(store.progress_percent(), 0);
}

#[test]
fn progress_percent_of_one_in_two_is_fifty() {
    let mut store = store_with(&["a", "b"]);
    store.toggle_completed(1);
    assert_eq!(store.progress_percent(), 50);
}

#[test]
fn progress_percent_rounds_down() {
    let mut store = store_with(&["a", "b", "c"]);
    store.toggle_completed(0);
    assert_eq!(store.progress_percent(), 33);
    store.toggle_completed(1);
    assert_eq!(store.progress_percent(), 66);
    store.toggle_completed(2);
    assert_eq!(store.progress_percent(), 100);
}
