//! The to-do list as mathematical values: what each operation makes of a
//! store, stated on sequences. The executable store is proved against this.

use vstd::prelude::*;
use crate::positions::{positions, without};
use crate::task::{TaskView, Theme};
use crate::text::{lowercase_of, occurs_in};

verus! {

/// The test "not completed yet".
pub open spec fn is_pending() -> spec_fn(TaskView) -> bool {
    |t: TaskView| !t.completed
}

/// The test "completed".
pub open spec fn is_done() -> spec_fn(TaskView) -> bool {
    |t: TaskView| t.completed
}

/// Where the editing slot stands once tasks have been removed. It is cleared
/// when the task it stood on is among the removed ones. Otherwise it keeps
/// its position, pulled back to the last task where the list has become too
/// short for it.
pub open spec fn slot_after_removal(slot: Option<int>, removed: bool, remaining: int) -> Option<
    int,
> {
    match slot {
        None => None,
        Some(e) => if removed {
            None
        } else if e < remaining {
            Some(e)
        } else {
            Some(remaining - 1)
        },
    }
}

/// The whole state of the list.
#[verifier::ext_equal]
pub struct TodoView {
    /// The tasks, in the order in which they were added.
    pub tasks: Seq<TaskView>,
    /// The text of the task that is being composed.
    pub new_task: Seq<char>,
    /// The position of the task that is open for editing, if any.
    pub selected_task: Option<int>,
    /// Whether completed tasks are displayed.
    pub show_completed: bool,
    /// The text that displayed tasks must contain.
    pub search_query: Seq<char>,
    /// The colour theme.
    pub theme: Theme,
}

impl TodoView {
    /// The editing slot, when set, points at a task.
    pub open spec fn wf(self) -> bool {
        self.selected_task matches Some(e) ==> 0 <= e < self.tasks.len()
    }

    /// The store a session starts with when nothing was saved.
    pub open spec fn initial() -> TodoView {
        TodoView {
            tasks: Seq::empty(),
            new_task: Seq::empty(),
            selected_task: None,
            show_completed: false,
            search_query: Seq::empty(),
            theme: Theme::Dark,
        }
    }

    /// `index` is the position of a task.
    pub open spec fn has_task(self, index: int) -> bool {
        0 <= index < self.tasks.len()
    }

    /// The task at the editing slot is at `index`.
    pub open spec fn is_editing(self, index: int) -> bool {
        self.selected_task == Some(index)
    }

    /// A task with this description is appended, not yet done, and the draft
    /// is emptied. An empty description changes nothing.
    pub open spec fn add_task(self, description: Seq<char>) -> TodoView {
        if description.len() == 0 {
            self
        } else {
            TodoView {
                tasks: self.tasks.push(TaskView { description, completed: false }),
                new_task: Seq::empty(),
                ..self
            }
        }
    }

    /// The task at `index` changes from done to not done, or back.
    pub open spec fn toggle_completed(self, index: int) -> TodoView {
        TodoView {
            tasks: self.tasks.update(
                index,
                TaskView { completed: !self.tasks[index].completed, ..self.tasks[index] },
            ),
            ..self
        }
    }

    /// The editing slot moves to `index`.
    pub open spec fn begin_edit(self, index: int) -> TodoView {
        TodoView { selected_task: Some(index), ..self }
    }

    /// The task at the editing slot gets a new description. With an empty
    /// slot nothing changes.
    pub open spec fn edit_description(self, text: Seq<char>) -> TodoView {
        match self.selected_task {
            None => self,
            Some(e) => TodoView {
                tasks: self.tasks.update(e, TaskView { description: text, ..self.tasks[e] }),
                ..self
            },
        }
    }

    /// The editing slot is emptied.
    pub open spec fn commit_edit(self) -> TodoView {
        TodoView { selected_task: None, ..self }
    }

    /// The task at `index` is removed and those behind it move up by one.
    pub open spec fn delete_task(self, index: int) -> TodoView {
        TodoView {
            tasks: self.tasks.remove(index),
            selected_task: slot_after_removal(
                self.selected_task,
                self.is_editing(index),
                self.tasks.len() - 1,
            ),
            ..self
        }
    }

    /// The tasks at the positions in `doomed` are removed.
    pub open spec fn delete_tasks(self, doomed: Set<int>) -> TodoView {
        let tasks = without(self.tasks, doomed);
        TodoView {
            tasks,
            selected_task: slot_after_removal(
                self.selected_task,
                self.selected_task matches Some(e) && doomed.contains(e),
                tasks.len() as int,
            ),
            ..self
        }
    }

    /// The completed tasks are removed.
    pub open spec fn clear_completed(self) -> TodoView {
        let tasks = self.tasks.filter(is_pending());
        TodoView {
            tasks,
            selected_task: slot_after_removal(
                self.selected_task,
                self.selected_task matches Some(e) && self.tasks[e].completed,
                tasks.len() as int,
            ),
            ..self
        }
    }

    /// The theme changes to the other one.
    pub open spec fn toggle_theme(self) -> TodoView {
        TodoView { theme: self.theme.flipped(), ..self }
    }

    /// The search text is replaced.
    pub open spec fn set_search_query(self, text: Seq<char>) -> TodoView {
        TodoView { search_query: text, ..self }
    }

    /// The display of completed tasks is switched on or off.
    pub open spec fn set_show_completed(self, show: bool) -> TodoView {
        TodoView { show_completed: show, ..self }
    }

    /// The draft is replaced.
    pub open spec fn set_draft_text(self, text: Seq<char>) -> TodoView {
        TodoView { new_task: text, ..self }
    }

    /// How many tasks are done.
    pub open spec fn completed_count(self) -> nat {
        self.tasks.filter(is_done()).len()
    }

    /// The share of the tasks that are done, in whole percent, rounded down;
    /// 0 for a list without tasks.
    pub open spec fn progress_percent(self) -> nat {
        if self.tasks.len() == 0 {
            0
        } else {
            (self.completed_count() * 100) / self.tasks.len()
        }
    }

    /// The descriptions of the tasks, in lowercase.
    pub open spec fn lowered_descriptions(self) -> Seq<Seq<char>> {
        self.tasks.map_values(|t: TaskView| lowercase_of(t.description))
    }

    /// The task at `index` passes the search: its description contains the
    /// search text, letter case aside.
    pub open spec fn is_hit(self, index: int) -> bool {
        occurs_in(lowercase_of(self.search_query), lowercase_of(self.tasks[index].description))
    }

    /// The task at `index` is displayed: it passes the search, and it is
    /// still to do unless completed tasks are displayed too.
    pub open spec fn is_shown(self, index: int) -> bool {
        self.is_hit(index) && (self.show_completed || !self.tasks[index].completed)
    }

    /// The test `is_hit`, as a value.
    pub open spec fn hit_test(self) -> spec_fn(int) -> bool {
        |i: int| self.is_hit(i)
    }

    /// The test `is_shown`, as a value.
    pub open spec fn shown_test(self) -> spec_fn(int) -> bool {
        |i: int| self.is_shown(i)
    }

    /// The positions of the tasks that pass the search, ascending.
    pub open spec fn search_hits(self) -> Seq<int> {
        positions(self.tasks.len() as int, self.hit_test())
    }

    /// The positions of the tasks that are displayed, ascending.
    pub open spec fn shown_positions(self) -> Seq<int> {
        positions(self.tasks.len() as int, self.shown_test())
    }
}

} // verus!
