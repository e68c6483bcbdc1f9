//! The executable store and its operations.

use vstd::prelude::*;
use crate::batch::{
    index_set, lemma_without_map, lemma_without_survivor, names_position, remove_positions,
};
use crate::model::{is_done, is_pending, TodoView};
use crate::snapshot::{source_view, Snapshot};
use crate::positions::{lemma_positions_agree, lemma_positions_refine, lemma_positions_sound};
use crate::task::{Task, TaskView, Theme};
use crate::text::{holds_needle, matching_positions, texts_of, to_lowercase};

verus! {

/// What a sequence of tasks is, as mathematical values.
pub open spec fn task_views(tasks: Seq<Task>) -> Seq<TaskView> {
    tasks.map_values(|t: Task| t@)
}

/// An editing slot as a mathematical value.
pub open spec fn slot_view(slot: Option<usize>) -> Option<int> {
    match slot {
        Some(e) => Some(e as int),
        None => None,
    }
}

/// The positions that a list of picked tasks names.
pub open spec fn picked_positions(picked: Seq<(usize, &Task)>) -> Seq<int> {
    picked.map_values(|p: (usize, &Task)| p.0 as int)
}

/// The to-do list: its tasks in the order in which they were added, the
/// draft of the next task, the editing slot, the display filters and the
/// theme.
#[derive(Debug, PartialEq, Eq)]
pub struct TodoApp {
    tasks: Vec<Task>,
    new_task: String,
    selected_task: Option<usize>,
    show_completed: bool,
    search_query: String,
    theme: Theme,
}

impl View for TodoApp {
    type V = TodoView;

    closed spec fn view(&self) -> TodoView {
        TodoView {
            tasks: task_views(self.tasks@),
            new_task: self.new_task@,
            selected_task: slot_view(self.selected_task),
            show_completed: self.show_completed,
            search_query: self.search_query@,
            theme: self.theme,
        }
    }
}

impl Default for TodoApp {
    /// The store without tasks, with the dark theme and completed tasks
    /// hidden.
    fn default() -> (store: TodoApp)
        ensures
            store.wf(),
            store@ == TodoView::initial(),
    {
        TodoApp {
            tasks: Vec::new(),
            new_task: String::new(),
            selected_task: None,
            show_completed: false,
            search_query: String::new(),
            theme: Theme::Dark,
        }
    }
}

/// A copy of the tasks.
pub fn clone_tasks(tasks: &Vec<Task>) -> (copy: Vec<Task>)
    ensures
        task_views(copy@) == task_views(tasks@),
{
    let mut copy: Vec<Task> = Vec::new();
    let mut i: usize = 0;
    while i < tasks.len()
        invariant
            i <= tasks@.len(),
            task_views(copy@) == task_views(tasks@).take(i as int),
        decreases tasks@.len() - i,
    {
        let ghost before = copy@;
        copy.push(tasks[i].clone());
        assert(task_views(copy@) == task_views(before).push(tasks@[i as int]@));
        i += 1;
    }
    copy
}

impl TodoApp {
    /// The editing slot, when set, points at a task.
    pub open spec fn wf(&self) -> bool {
        self@.wf()
    }

    /// The store that a snapshot stands for. A field that the snapshot
    /// lacks takes the value it has in the store without tasks, and an
    /// editing slot that points at no task is cleared.
    pub fn restore(snapshot: Snapshot) -> (store: TodoApp)
        ensures
            store.wf(),
            store@ == TodoView::restore(snapshot@),
    {
        let tasks = match snapshot.tasks {
            Some(tasks) => tasks,
            None => Vec::new(),
        };
        let selected_task = match snapshot.selected_task {
            Some(e) => if e < tasks.len() {
                Some(e)
            } else {
                None
            },
            None => None,
        };
        TodoApp {
            tasks,
            new_task: match snapshot.new_task {
                Some(text) => text,
                None => String::new(),
            },
            selected_task,
            show_completed: match snapshot.show_completed {
                Some(show) => show,
                None => false,
            },
            search_query: match snapshot.search_query {
                Some(text) => text,
                None => String::new(),
            },
            theme: match snapshot.theme {
                Some(theme) => theme,
                None => Theme::Dark,
            },
        }
    }

    /// The store to start a session with, given what was read back from
    /// disk: the store of the snapshot, or the store without tasks where
    /// nothing could be read.
    pub fn load(source: Option<Snapshot>) -> (store: TodoApp)
        ensures
            store.wf(),
            store@ == TodoView::load(source_view(source)),
            source is None ==> store@ == TodoView::initial(),
    {
        match source {
            Some(snapshot) => TodoApp::restore(snapshot),
            None => TodoApp::default(),
        }
    }

    /// The whole store in its saved form, no field missing.
    pub fn snapshot(&self) -> (snapshot: Snapshot)
        ensures
            snapshot@ == self@.snapshot(),
    {
        Snapshot {
            tasks: Some(clone_tasks(&self.tasks)),
            new_task: Some(self.new_task.clone()),
            selected_task: self.selected_task,
            show_completed: Some(self.show_completed),
            search_query: Some(self.search_query.clone()),
            theme: Some(self.theme),
        }
    }

    /// The tasks, in the order in which they were added.
    pub fn tasks(&self) -> (tasks: &Vec<Task>)
        ensures
            task_views(tasks@) == self@.tasks,
    {
        &self.tasks
    }

    /// The text of the task that is being composed.
    pub fn new_task(&self) -> (draft: &String)
        ensures
            draft@ == self@.new_task,
    {
        &self.new_task
    }

    /// The position of the task that is open for editing, if any.
    pub fn selected_task(&self) -> (slot: Option<usize>)
        ensures
            slot_view(slot) == self@.selected_task,
    {
        self.selected_task
    }

    /// Whether completed tasks are displayed.
    pub fn show_completed(&self) -> (show: bool)
        ensures
            show == self@.show_completed,
    {
        self.show_completed
    }

    /// The text that displayed tasks must contain.
    pub fn search_query(&self) -> (query: &String)
        ensures
            query@ == self@.search_query,
    {
        &self.search_query
    }

    /// The colour theme.
    pub fn theme(&self) -> (theme: Theme)
        ensures
            theme == self@.theme,
    {
        self.theme
    }

    /// Appends a task with this description, not yet done, and empties the
    /// draft. An empty description is turned down: nothing changes. Only
    /// emptiness is tested, so a description of blanks is accepted.
    pub fn add_task(&mut self, description: String) -> (added: bool)
        requires
            old(self).wf(),
        ensures
            final(self).wf(),
            final(self)@ == old(self)@.add_task(description@),
            added == (description@.len() > 0),
            added ==> final(self)@.tasks.len() == old(self)@.tasks.len() + 1,
            added ==> final(self)@.new_task.len() == 0,
            !added ==> final(self)@ == old(self)@,
    {
        if description.as_str().is_empty() {
            return false;
        }
        let ghost before = self.tasks@;
        self.tasks.push(Task { description, completed: false });
        self.new_task = String::new();
        assert(task_views(self.tasks@) == task_views(before).push(
            TaskView { description: description@, completed: false },
        ));
        true
    }

    /// Changes the task at `index` from done to not done, or back.
    pub fn toggle_completed(&mut self, index: usize)
        requires
            old(self).wf(),
            old(self)@.has_task(index as int),
        ensures
            final(self).wf(),
            final(self)@ == old(self)@.toggle_completed(index as int),
    {
        let ghost before = self.tasks@;
        self.tasks[index].completed = !self.tasks[index].completed;
        assert(task_views(self.tasks@) == task_views(before).update(
            index as int,
            TaskView { completed: !before[index as int].completed, ..before[index as int]@ },
        ));
    }

    /// Opens the task at `index` for editing. A task that was open before is
    /// left as it stands, with whatever was typed into it.
    pub fn begin_edit(&mut self, index: usize)
        requires
            old(self).wf(),
            old(self)@.has_task(index as int),
        ensures
            final(self).wf(),
            final(self)@ == old(self)@.begin_edit(index as int),
    {
        self.selected_task = Some(index);
    }

    /// Replaces the description of the task that is open for editing, and
    /// says whether there was one. No test is made on the text: an empty
    /// description is accepted here.
    pub fn edit_description(&mut self, text: String) -> (edited: bool)
        requires
            old(self).wf(),
        ensures
            final(self).wf(),
            final(self)@ == old(self)@.edit_description(text@),
            edited == old(self)@.selected_task.is_some(),
    {
        match self.selected_task {
            None => false,
            Some(e) => {
                let ghost before = self.tasks@;
                self.tasks[e].description = text;
                assert(task_views(self.tasks@) == task_views(before).update(
                    e as int,
                    TaskView { description: text@, ..before[e as int]@ },
                ));
                true
            },
        }
    }

    /// Closes the editing slot.
    pub fn commit_edit(&mut self)
        requires
            old(self).wf(),
        ensures
            final(self).wf(),
            final(self)@ == old(self)@.commit_edit(),
            final(self)@.selected_task is None,
    {
        self.selected_task = None;
    }

    /// Removes the task at `index`; the tasks behind it move up by one. The
    /// editing slot is cleared when it stood on that task.
    pub fn delete_task(&mut self, index: usize)
        requires
            old(self).wf(),
            old(self)@.has_task(index as int),
        ensures
            final(self).wf(),
            final(self)@ == old(self)@.delete_task(index as int),
            old(self)@.is_editing(index as int) ==> final(self)@.selected_task is None,
    {
        let ghost before = self.tasks@;
        self.tasks.remove(index);
        assert(task_views(self.tasks@) == task_views(before).remove(index as int));
        self.selected_task = match self.selected_task {
            None => None,
            Some(e) => if e == index {
                None
            } else if e < self.tasks.len() {
                Some(e)
            } else {
                Some(self.tasks.len() - 1)
            },
        };
    }

    /// Removes the tasks at the given positions in one pass and says how
    /// many it removed. The positions are those that the tasks have before
    /// the call, in whatever order they were collected: they are applied
    /// greatest first, so that no removal moves a task that is still to be
    /// removed. A position that names no task is passed over. The editing
    /// slot is cleared when it stood on a removed task.
    pub fn delete_tasks(&mut self, indices: &Vec<usize>) -> (count: usize)
        requires
            old(self).wf(),
        ensures
            final(self).wf(),
            final(self)@ == old(self)@.delete_tasks(index_set(indices@)),
            count == old(self)@.tasks.len() - final(self)@.tasks.len(),
    {
        let removed = match self.selected_task {
            Some(e) => names_position(indices, e),
            None => false,
        };
        let ghost before = self.tasks@;
        let count = remove_positions(&mut self.tasks, indices);
        proof {
            let doomed = index_set(indices@);
            let look = |t: Task| t@;
            lemma_without_map(before, doomed, look);
            assert(task_views(before) == before.map_values(look));
            assert(task_views(self.tasks@) == self.tasks@.map_values(look));
            if self.selected_task.is_some() && !removed {
                lemma_without_survivor(before, doomed, self.selected_task.unwrap() as int);
            }
        }
        self.selected_task = match self.selected_task {
            None => None,
            Some(e) => if removed {
                None
            } else if e < self.tasks.len() {
                Some(e)
            } else {
                Some(self.tasks.len() - 1)
            },
        };
        count
    }

    /// Removes every completed task. The tasks still to do stay, in their
    /// order. The editing slot is cleared when it stood on a completed task.
    pub fn clear_completed(&mut self)
        requires
            old(self).wf(),
        ensures
            final(self).wf(),
            final(self)@ == old(self)@.clear_completed(),
            final(self)@.tasks == old(self)@.tasks.filter(is_pending()),
    {
        let removed = match self.selected_task {
            Some(e) => self.tasks[e].completed,
            None => false,
        };
        let mut all: Vec<Task> = Vec::new();
        std::mem::swap(&mut self.tasks, &mut all);
        let ghost before = task_views(all@);
        let mut kept: Vec<Task> = Vec::new();
        for task in it: all
            invariant
                before == task_views(it.seq()),
                task_views(kept@) == before.take(it.index() as int).filter(is_pending()),
        {
            proof {
                let i = it.index() as int;
                assert(before.take(i + 1) == before.take(i).push(before[i]));
                before.take(i).lemma_filter_push(before[i], is_pending());
            }
            if !task.completed {
                kept.push(task);
            }
        }
        proof {
            assert(before.take(before.len() as int) == before);
            before.lemma_filter_len(is_pending());
            if self.selected_task.is_some() && !removed {
                before.lemma_filter_contains(is_pending(), self.selected_task.unwrap() as int);
            }
        }
        self.selected_task = match self.selected_task {
            None => None,
            Some(e) => if removed {
                None
            } else if e < kept.len() {
                Some(e)
            } else {
                Some(kept.len() - 1)
            },
        };
        self.tasks = kept;
    }

    /// How many tasks are done.
    pub fn completed_tasks(&self) -> (count: usize)
        ensures
            count == self@.completed_count(),
            count <= self@.tasks.len(),
    {
        let ghost views = task_views(self.tasks@);
        let mut count: usize = 0;
        let mut i: usize = 0;
        while i < self.tasks.len()
            invariant
                i <= self.tasks@.len(),
                views == task_views(self.tasks@),
                count == views.take(i as int).filter(is_done()).len(),
                count <= i,
            decreases self.tasks@.len() - i,
        {
            proof {
                assert(views.take(i + 1) == views.take(i as int).push(views[i as int]));
                views.take(i as int).lemma_filter_push(views[i as int], is_done());
            }
            if self.tasks[i].completed {
                count += 1;
            }
            i += 1;
        }
        assert(views.take(views.len() as int) == views);
        count
    }

    /// The share of the tasks that are done, in whole percent, rounded down.
    /// A list without tasks has made no progress: 0.
    pub fn progress_percent(&self) -> (percent: usize)
        ensures
            percent == self@.progress_percent(),
            percent <= 100,
            self@.tasks.len() == 0 ==> percent == 0,
    {
        let total = self.tasks.len();
        if total == 0 {
            return 0;
        }
        let done = self.completed_tasks();
        let scaled: u128 = (done as u128) * 100;
        let percent: u128 = scaled / (total as u128);
        assert(percent <= 100) by (nonlinear_arith)
            requires
                percent == (done * 100) / (total as int),
                done <= total,
                total > 0,
        ;
        percent as usize
    }

    /// The tasks whose description contains the search text, letter case
    /// aside, each with its position in the list, in the order of the list.
    pub fn filtered_tasks(&self) -> (hits: Vec<(usize, &Task)>)
        ensures
            picked_positions(hits@) == self@.search_hits(),
            forall|k: int|
                0 <= k < hits@.len() ==> (#[trigger] hits@[k]).1@ == self@.tasks[hits@[k].0 as int],
    {
        let needle = to_lowercase(self.search_query.as_str());
        let mut lowered: Vec<String> = Vec::new();
        let mut i: usize = 0;
        while i < self.tasks.len()
            invariant
                i <= self.tasks@.len(),
                texts_of(lowered@) == self@.lowered_descriptions().take(i as int),
            decreases self.tasks@.len() - i,
        {
            let ghost before = lowered@;
            lowered.push(to_lowercase(self.tasks[i].description.as_str()));
            assert(texts_of(lowered@) == texts_of(before).push(lowered@[i as int]@));
            i += 1;
        }
        let found = matching_positions(&lowered, needle.as_str());
        proof {
            let n = self.tasks@.len() as int;
            assert(texts_of(lowered@) == self@.lowered_descriptions());
            lemma_positions_agree(n, holds_needle(texts_of(lowered@), needle@), self@.hit_test());
            lemma_positions_sound(n, self@.hit_test());
        }
        let mut hits: Vec<(usize, &Task)> = Vec::new();
        let mut k: usize = 0;
        while k < found.len()
            invariant
                k <= found@.len(),
                found@.map_values(|i: usize| i as int) == self@.search_hits(),
                forall|j: int|
                    0 <= j < found@.len() ==> 0 <= #[trigger] self@.search_hits()[j]
                        < self.tasks@.len(),
                picked_positions(hits@) == self@.search_hits().take(k as int),
                forall|j: int|
                    0 <= j < hits@.len() ==> (#[trigger] hits@[j]).1@ == self@.tasks[hits@[j].0 as int],
            decreases found@.len() - k,
        {
            let ghost before = hits@;
            let at = found[k];
            assert(at as int == self@.search_hits()[k as int]);
            hits.push((at, &self.tasks[at]));
            assert(picked_positions(hits@) == picked_positions(before).push(at as int));
            k += 1;
        }
        assert(self@.search_hits().take(k as int) == self@.search_hits());
        hits
    }

    /// The tasks on display: those that pass the search and, unless
    /// completed tasks are displayed too, are still to do. Each comes with
    /// its position in the list, in the order of the list.
    pub fn filtered_view(&self) -> (shown: Vec<(usize, &Task)>)
        ensures
            picked_positions(shown@) == self@.shown_positions(),
            forall|k: int|
                0 <= k < shown@.len() ==> (#[trigger] shown@[k]).1@ == self@.tasks[shown@[k].0 as int],
    {
        let hits = self.filtered_tasks();
        let ghost passes = |i: int| self@.show_completed || !self@.tasks[i].completed;
        let mut shown: Vec<(usize, &Task)> = Vec::new();
        let mut k: usize = 0;
        proof {
            reveal(Seq::filter);
        }
        while k < hits.len()
            invariant
                k <= hits@.len(),
                picked_positions(hits@) == self@.search_hits(),
                forall|j: int|
                    0 <= j < hits@.len() ==> (#[trigger] hits@[j]).1@ == self@.tasks[hits@[j].0 as int],
                passes == |i: int| self@.show_completed || !self@.tasks[i].completed,
                picked_positions(shown@) == self@.search_hits().take(k as int).filter(passes),
                forall|j: int|
                    0 <= j < shown@.len() ==> (#[trigger] shown@[j]).1@ == self@.tasks[shown@[j].0 as int],
            decreases hits@.len() - k,
        {
            let ghost before = shown@;
            let ghost seen = self@.search_hits().take(k as int);
            let (at, task) = hits[k];
            proof {
                assert(picked_positions(hits@)[k as int] == at as int);
                assert(self@.search_hits().take(k + 1) == seen.push(at as int));
                seen.lemma_filter_push(at as int, passes);
                assert(task@ == self@.tasks[at as int]);
            }
            if self.show_completed || !task.completed {
                shown.push((at, task));
                assert(picked_positions(shown@) == picked_positions(before).push(at as int));
            }
            k += 1;
        }
        proof {
            assert(self@.search_hits().take(k as int) == self@.search_hits());
            lemma_positions_refine(
                self@.tasks.len() as int,
                self@.hit_test(),
                passes,
                self@.shown_test(),
            );
        }
        shown
    }

    /// Replaces the search text.
    pub fn set_search_query(&mut self, text: String)
        requires
            old(self).wf(),
        ensures
            final(self).wf(),
            final(self)@ == old(self)@.set_search_query(text@),
    {
        self.search_query = text;
    }

    /// Switches the display of completed tasks on or off.
    pub fn set_show_completed(&mut self, show: bool)
        requires
            old(self).wf(),
        ensures
            final(self).wf(),
            final(self)@ == old(self)@.set_show_completed(show),
    {
        self.show_completed = show;
    }

    /// Replaces the draft of the next task.
    pub fn set_draft_text(&mut self, text: String)
        requires
            old(self).wf(),
        ensures
            final(self).wf(),
            final(self)@ == old(self)@.set_draft_text(text@),
    {
        self.new_task = text;
    }

    /// Changes the theme to the other one.
    pub fn toggle_theme(&mut self)
        requires
            old(self).wf(),
        ensures
            final(self).wf(),
            final(self)@ == old(self)@.toggle_theme(),
    {
        self.theme = self.theme.toggled();
    }
}

} // verus!
