//! The saved form of a store: every field of it, each of which may be
//! missing from what was read back.

use vstd::prelude::*;
use crate::model::TodoView;
use crate::store::{slot_view, task_views};
use crate::task::{Task, TaskView, Theme};

verus! {

/// A store as it is written to disk and read back. A field that the file
/// did not hold is `None`.
#[derive(Debug, PartialEq, Eq)]
pub struct Snapshot {
    pub tasks: Option<Vec<Task>>,
    pub new_task: Option<String>,
    pub selected_task: Option<usize>,
    pub show_completed: Option<bool>,
    pub search_query: Option<String>,
    pub theme: Option<Theme>,
}

/// A snapshot as mathematical values.
#[verifier::ext_equal]
pub struct SnapshotView {
    pub tasks: Option<Seq<TaskView>>,
    pub new_task: Option<Seq<char>>,
    pub selected_task: Option<int>,
    pub show_completed: Option<bool>,
    pub search_query: Option<Seq<char>>,
    pub theme: Option<Theme>,
}

impl View for Snapshot {
    type V = SnapshotView;

    open spec fn view(&self) -> SnapshotView {
        SnapshotView {
            tasks: match self.tasks {
                Some(tasks) => Some(task_views(tasks@)),
                None => None,
            },
            new_task: match self.new_task {
                Some(text) => Some(text@),
                None => None,
            },
            selected_task: slot_view(self.selected_task),
            show_completed: self.show_completed,
            search_query: match self.search_query {
                Some(text) => Some(text@),
                None => None,
            },
            theme: self.theme,
        }
    }
}

/// What was read back from disk, as mathematical values.
pub open spec fn source_view(source: Option<Snapshot>) -> Option<SnapshotView> {
    match source {
        Some(snapshot) => Some(snapshot@),
        None => None,
    }
}

impl SnapshotView {
    /// The tasks of the snapshot; none where the field is missing.
    pub open spec fn tasks_or_default(self) -> Seq<TaskView> {
        match self.tasks {
            Some(tasks) => tasks,
            None => Seq::empty(),
        }
    }
}

impl TodoView {
    /// The store that a snapshot stands for. A missing field takes the value
    /// it has in the initial store, and an editing slot that points at no
    /// task is cleared.
    pub open spec fn restore(snapshot: SnapshotView) -> TodoView {
        TodoView {
            tasks: snapshot.tasks_or_default(),
            new_task: match snapshot.new_task {
                Some(text) => text,
                None => Seq::empty(),
            },
            selected_task: match snapshot.selected_task {
                Some(e) => if 0 <= e < snapshot.tasks_or_default().len() {
                    Some(e)
                } else {
                    None
                },
                None => None,
            },
            show_completed: match snapshot.show_completed {
                Some(show) => show,
                None => false,
            },
            search_query: match snapshot.search_query {
                Some(text) => text,
                None => Seq::empty(),
            },
            theme: match snapshot.theme {
                Some(theme) => theme,
                None => Theme::Dark,
            },
        }
    }

    /// The snapshot of a store: every field, none missing.
    pub open spec fn snapshot(self) -> SnapshotView {
        SnapshotView {
            tasks: Some(self.tasks),
            new_task: Some(self.new_task),
            selected_task: self.selected_task,
            show_completed: Some(self.show_completed),
            search_query: Some(self.search_query),
            theme: Some(self.theme),
        }
    }

    /// The store to start with, given what was read back: the store of the
    /// snapshot, or the initial store where nothing could be read.
    pub open spec fn load(source: Option<SnapshotView>) -> TodoView {
        match source {
            Some(snapshot) => TodoView::restore(snapshot),
            None => TodoView::initial(),
        }
    }
}

} // verus!
