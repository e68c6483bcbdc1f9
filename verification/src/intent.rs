//! What a display surface may ask of the store, and what the store answers:
//! the next state, and whether that state has to be written to disk.

use vstd::prelude::*;
use crate::batch::index_set;
use crate::model::TodoView;
use crate::store::TodoApp;

verus! {

/// One request of the user.
#[derive(Debug, PartialEq, Eq)]
pub enum Intent {
    /// Turn the draft into a task.
    AddTask,
    /// Mark the task at this position as done, or as not done again.
    ToggleCompleted(usize),
    /// Open the task at this position for editing.
    BeginEdit(usize),
    /// Give the task that is open for editing this description.
    EditDescription(String),
    /// Close the editing slot.
    CommitEdit,
    /// Remove the task at this position.
    DeleteTask(usize),
    /// Remove the tasks at these positions, all meant as of before the
    /// removal.
    DeleteTasks(Vec<usize>),
    /// Remove the completed tasks.
    ClearCompleted,
    /// Change to the other theme.
    ToggleTheme,
    /// Search for this text.
    SetSearchQuery(String),
    /// Display completed tasks, or hide them.
    SetShowCompleted(bool),
    /// Replace the draft.
    SetDraftText(String),
}

/// A request as mathematical values.
pub enum IntentView {
    AddTask,
    ToggleCompleted(int),
    BeginEdit(int),
    EditDescription(Seq<char>),
    CommitEdit,
    DeleteTask(int),
    DeleteTasks(Set<int>),
    ClearCompleted,
    ToggleTheme,
    SetSearchQuery(Seq<char>),
    SetShowCompleted(bool),
    SetDraftText(Seq<char>),
}

impl View for Intent {
    type V = IntentView;

    open spec fn view(&self) -> IntentView {
        match *self {
            Intent::AddTask => IntentView::AddTask,
            Intent::ToggleCompleted(index) => IntentView::ToggleCompleted(index as int),
            Intent::BeginEdit(index) => IntentView::BeginEdit(index as int),
            Intent::EditDescription(text) => IntentView::EditDescription(text@),
            Intent::CommitEdit => IntentView::CommitEdit,
            Intent::DeleteTask(index) => IntentView::DeleteTask(index as int),
            Intent::DeleteTasks(indices) => IntentView::DeleteTasks(index_set(indices@)),
            Intent::ClearCompleted => IntentView::ClearCompleted,
            Intent::ToggleTheme => IntentView::ToggleTheme,
            Intent::SetSearchQuery(text) => IntentView::SetSearchQuery(text@),
            Intent::SetShowCompleted(show) => IntentView::SetShowCompleted(show),
            Intent::SetDraftText(text) => IntentView::SetDraftText(text@),
        }
    }
}

/// What the caller has to do once a request has been applied.
#[derive(Clone, Copy, Debug, PartialEq, Eq, Structural)]
pub enum Action {
    /// Nothing.
    Idle,
    /// Write the whole store to disk.
    Persist,
}

impl Action {
    /// `Persist` where `needed`, else `Idle`.
    pub open spec fn when(needed: bool) -> Action {
        if needed {
            Action::Persist
        } else {
            Action::Idle
        }
    }
}

impl TodoView {
    /// The store after one request. A request that names a position
    /// without a task changes nothing.
    pub open spec fn step(self, intent: IntentView) -> TodoView {
        match intent {
            IntentView::AddTask => self.add_task(self.new_task),
            IntentView::ToggleCompleted(index) => if self.has_task(index) {
                self.toggle_completed(index)
            } else {
                self
            },
            IntentView::BeginEdit(index) => if self.has_task(index) {
                self.begin_edit(index)
            } else {
                self
            },
            IntentView::EditDescription(text) => self.edit_description(text),
            IntentView::CommitEdit => self.commit_edit(),
            IntentView::DeleteTask(index) => if self.has_task(index) {
                self.delete_task(index)
            } else {
                self
            },
            IntentView::DeleteTasks(doomed) => self.delete_tasks(doomed),
            IntentView::ClearCompleted => self.clear_completed(),
            IntentView::ToggleTheme => self.toggle_theme(),
            IntentView::SetSearchQuery(text) => self.set_search_query(text),
            IntentView::SetShowCompleted(show) => self.set_show_completed(show),
            IntentView::SetDraftText(text) => self.set_draft_text(text),
        }
    }

    /// Whether the store has to be written to disk after a request: after
    /// one that added, changed or removed a task, closed the editing slot,
    /// cleared the completed tasks or changed the theme. Typing, opening a
    /// task for editing and setting the display filters ask for no write.
    pub open spec fn response(self, intent: IntentView) -> Action {
        match intent {
            IntentView::AddTask => Action::when(self.new_task.len() > 0),
            IntentView::ToggleCompleted(index) => Action::when(self.has_task(index)),
            IntentView::BeginEdit(_) => Action::Idle,
            IntentView::EditDescription(_) => Action::Idle,
            IntentView::CommitEdit => Action::Persist,
            IntentView::DeleteTask(index) => Action::when(self.has_task(index)),
            IntentView::DeleteTasks(doomed) => Action::when(
                self.delete_tasks(doomed).tasks.len() < self.tasks.len(),
            ),
            IntentView::ClearCompleted => Action::Persist,
            IntentView::ToggleTheme => Action::Persist,
            IntentView::SetSearchQuery(_) => Action::Idle,
            IntentView::SetShowCompleted(_) => Action::Idle,
            IntentView::SetDraftText(_) => Action::Idle,
        }
    }

    /// The store after a series of requests, applied first to last.
    pub open spec fn run(self, intents: Seq<IntentView>) -> TodoView
        decreases intents.len(),
    {
        if intents.len() == 0 {
            self
        } else {
            self.run(intents.drop_last()).step(intents.last())
        }
    }

    /// Whether any request of the series asks for a write.
    pub open spec fn run_response(self, intents: Seq<IntentView>) -> Action
        decreases intents.len(),
    {
        if intents.len() == 0 {
            Action::Idle
        } else if self.run(intents.drop_last()).response(intents.last()) == Action::Persist {
            Action::Persist
        } else {
            self.run_response(intents.drop_last())
        }
    }
}

/// A series of requests as mathematical values.
pub open spec fn intent_views(intents: Seq<Intent>) -> Seq<IntentView> {
    intents.map_values(|i: Intent| i@)
}

impl TodoApp {
    /// Applies one request and says whether the store has to be written to
    /// disk now. A request that names a position without a task is passed
    /// over.
    pub fn apply(&mut self, intent: Intent) -> (action: Action)
        requires
            old(self).wf(),
        ensures
            final(self).wf(),
            final(self)@ == old(self)@.step(intent@),
            action == old(self)@.response(intent@),
    {
        let count = self.tasks().len();
        match intent {
            Intent::AddTask => {
                let description = self.new_task().clone();
                if self.add_task(description) {
                    Action::Persist
                } else {
                    Action::Idle
                }
            },
            Intent::ToggleCompleted(index) => {
                if index < count {
                    self.toggle_completed(index);
                    Action::Persist
                } else {
                    Action::Idle
                }
            },
            Intent::BeginEdit(index) => {
                if index < count {
                    self.begin_edit(index);
                }
                Action::Idle
            },
            Intent::EditDescription(text) => {
                self.edit_description(text);
                Action::Idle
            },
            Intent::CommitEdit => {
                self.commit_edit();
                Action::Persist
            },
            Intent::DeleteTask(index) => {
                if index < count {
                    self.delete_task(index);
                    Action::Persist
                } else {
                    Action::Idle
                }
            },
            Intent::DeleteTasks(indices) => {
                if self.delete_tasks(&indices) > 0 {
                    Action::Persist
                } else {
                    Action::Idle
                }
            },
            Intent::ClearCompleted => {
                self.clear_completed();
                Action::Persist
            },
            Intent::ToggleTheme => {
                self.toggle_theme();
                Action::Persist
            },
            Intent::SetSearchQuery(text) => {
                self.set_search_query(text);
                Action::Idle
            },
            Intent::SetShowCompleted(show) => {
                self.set_show_completed(show);
                Action::Idle
            },
            Intent::SetDraftText(text) => {
                self.set_draft_text(text);
                Action::Idle
            },
        }
    }

    /// Applies the requests of one frame, first to last, and says whether
    /// any of them asked for the store to be written to disk.
    pub fn apply_all(&mut self, intents: Vec<Intent>) -> (action: Action)
        requires
            old(self).wf(),
        ensures
            final(self).wf(),
            final(self)@ == old(self)@.run(intent_views(intents@)),
            action == old(self)@.run_response(intent_views(intents@)),
    {
        let ghost start = self@;
        let ghost all = intent_views(intents@);
        let mut action = Action::Idle;
        for intent in it: intents
            invariant
                self.wf(),
                all == intent_views(it.seq()),
                self@ == start.run(all.take(it.index() as int)),
                action == start.run_response(all.take(it.index() as int)),
        {
            proof {
                let k = it.index() as int;
                assert(all.take(k + 1).drop_last() == all.take(k));
                assert(all.take(k + 1).last() == intent@);
            }
            match self.apply(intent) {
                Action::Persist => {
                    action = Action::Persist;
                },
                Action::Idle => {},
            }
        }
        assert(all.take(all.len() as int) == all);
        action
    }
}

} // verus!
