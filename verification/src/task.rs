//! Tasks and the colour theme.

use vstd::prelude::*;

verus! {

/// The colour theme of the display.
#[derive(Clone, Copy, Debug, PartialEq, Eq, Structural)]
pub enum Theme {
    Dark,
    Light,
}

impl Theme {
    /// The other theme.
    pub open spec fn flipped(self) -> Theme {
        match self {
            Theme::Dark => Theme::Light,
            Theme::Light => Theme::Dark,
        }
    }

    /// The other theme.
    pub fn toggled(self) -> (r: Theme)
        ensures
            r == self.flipped(),
    {
        match self {
            Theme::Dark => Theme::Light,
            Theme::Light => Theme::Dark,
        }
    }
}

impl Default for Theme {
    fn default() -> (r: Theme)
        ensures
            r == Theme::Dark,
    {
        Theme::Dark
    }
}

/// What a task is, as mathematical values.
pub struct TaskView {
    pub description: Seq<char>,
    pub completed: bool,
}

/// One to-do item.
#[derive(Debug, PartialEq, Eq)]
pub struct Task {
    pub description: String,
    pub completed: bool,
}

impl View for Task {
    type V = TaskView;

    open spec fn view(&self) -> TaskView {
        TaskView { description: self.description@, completed: self.completed }
    }
}

impl Clone for Task {
    fn clone(&self) -> (r: Task)
        ensures
            r@ == self@,
    {
        Task { description: self.description.clone(), completed: self.completed }
    }
}

impl Task {
    /// A task that is not yet done.
    pub fn new(description: String) -> (r: Task)
        ensures
            r@ == (TaskView { description: description@, completed: false }),
    {
        Task { description, completed: false }
    }
}

} // verus!
