use todo_list::intent::{Action, Intent};
use todo_list::store::TodoApp;
use todo_list::task::Theme;

fn store_with(descriptions: &[&str]) -> TodoApp {
    let mut store = TodoApp::default();
    for d in descriptions {
        assert!(store.add_task(d.to_string()));
    }
    store
}

fn descriptions(store: &TodoApp) -> Vec<String> {
    store.tasks().iter().map(|t| t.description.clone()).collect()
}

#[test]
fn add_intent_turns_the_draft_into_a_task_and_persists() {
    let mut store = TodoApp::default();
    assert_eq!(store.apply(Intent::SetDraftText("Buy milk".to_string())), Action::Idle);
    assert_eq!(store.apply(Intent::AddTask), Action::Persist);
    assert_eq!(descriptions(&store), vec!["Buy milk"]);
    assert_eq!(store.new_task(), "");
}

#[test]
fn add_intent_with_empty_draft_is_idle() {
    let mut store = store_with(&["a"]);
    assert_eq!(store.apply(Intent::AddTask), Action::Idle);
    assert_eq!(descriptions(&store), vec!["a"]);
}

#[test]
fn toggle_intent_persists() {
    let mut store = store_with(&["a"]);
    assert_eq!(store.apply(Intent::ToggleCompleted(0)), Action::Persist);
    assert!(store.tasks()[0].completed);
}

#[test]
fn intents_on_a_missing_task_are_passed_over() {
    let mut store = store_with(&["a"]);
    assert_eq!(store.apply(Intent::ToggleCompleted(1)), Action::Idle);
    assert_eq!(store.apply(Intent::BeginEdit(1)), Action::Idle);
    assert_eq!(store.apply(Intent::DeleteTask(5)), Action::Idle);
    assert_eq!(store.apply(Intent::DeleteTasks(vec![1, 2])), Action::Idle);
    assert_eq!(store, store_with(&["a"]));
}

#[test]
fn editing_intents_persist_on_commit_only() {
    let mut store = store_with(&["a", "b"]);
    assert_eq!(store.apply(Intent::BeginEdit(1)), Action::Idle);
    assert_eq!(store.selected_task(), Some(1));
    assert_eq!(store.apply(Intent::EditDescription("b!".to_string())), Action::Idle);
    assert_eq!(descriptions(&store), vec!["a", "b!"]);
    assert_eq!(store.apply(Intent::CommitEdit), Action::Persist);
    assert_eq!(store.selected_task(), None);
}

#[test]
fn commit_intent_persists_from_any_state() {
    let mut store = TodoApp::default();
    assert_eq!(store.apply(Intent::CommitEdit), Action::Persist);
}

#[test]
fn delete_intents_persist_when_something_went() {
    let mut store = store_with(&["a", "b", "c", "d"]);
    assert_eq!(store.apply(Intent::DeleteTask(0)), Action::Persist);
    assert_eq!(store.apply(Intent::DeleteTasks(vec![0, 2, 7])), Action::Persist);
    assert_eq!(descriptions(&store), vec!["c"]);
}

#[test]
fn clear_and_theme_intents_persist() {
    let mut store = store_with(&["a"]);
    assert_eq!(store.apply(Intent::ClearCompleted), Action::Persist);
    assert_eq!(store.apply(Intent::ToggleTheme), Action::Persist);
    assert_eq!(store.theme(), Theme::Light);
}

#[test]
fn filter_intents_are_idle() {
    let mut store = store_with(&["a"]);
    assert_eq!(store.apply(Intent::SetSearchQuery("x".to_string())), Action::Idle);
    assert_eq!(store.apply(Intent::SetShowCompleted(true)), Action::Idle);
    assert_eq!(store.search_query(), "x");
    assert!(store.show_completed());
}

#[test]
fn apply_all_runs_a_frame_in_order() {
    let mut store = store_with(&["a", "b", "c"]);
    let action = store.apply_all(vec![
        Intent::SetDraftText("d".to_string()),
        Intent::AddTask,
        Intent::ToggleCompleted(1),
        Intent::DeleteTasks(vec![0, 2]),
        Intent::BeginEdit(1),
    ]);
    assert_eq!(action, Action::Persist);
    assert_eq!(descriptions(&store), vec!["b", "d"]);
    assert!(store.tasks()[0].completed);
    assert_eq!(store.selected_task(), Some(1));
}

#[test]
fn apply_all_of_idle_intents_is_idle() {
    let mut store = store_with(&["a"]);
    let action = store.apply_all(vec![
        Intent::SetSearchQuery("a".to_string()),
        Intent::BeginEdit(0),
        Intent::SetDraftText("x".to_string()),
    ]);
    assert_eq!(action, Action::Idle);
}

#[test]
fn apply_all_of_nothing_is_idle() {
    let mut store = store_with(&["a"]);
    assert_eq!(store.apply_all(Vec::new()), Action::Idle);
    assert_eq!(store, store_with(&["a"]));
}
