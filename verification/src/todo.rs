//! The todo record and its mathematical view.

use vstd::prelude::*;

verus! {

/// A todo record as contracts see it: the task text is a sequence of
/// characters, the other two fields are themselves.
pub struct TodoView {
    pub id: Option<u128>,
    pub task: Seq<char>,
    pub completed: Option<bool>,
}

impl TodoView {
    /// The record that an add creates: the given identifier and task, not yet
    /// completed.
    pub open spec fn created(id: u128, task: Seq<char>) -> TodoView {
        TodoView { id: Some(id), task, completed: Some(false) }
    }

    /// This record with its task and completion flag overwritten; the
    /// identifier stays.
    pub open spec fn revised(self, task: Seq<char>, completed: Option<bool>) -> TodoView {
        TodoView { id: self.id, task, completed }
    }
}

/// One task of the collection.
///
/// `id` holds the 128 bits of the record's UUID. Records made by the store
/// always carry one; imported records carry whatever the imported file gave
/// them, which may be nothing.
#[derive(Debug, PartialEq, Eq)]
pub struct Todo {
    pub id: Option<u128>,
    pub task: String,
    pub completed: Option<bool>,
}

impl View for Todo {
    type V = TodoView;

    open spec fn view(&self) -> TodoView {
        TodoView { id: self.id, task: self.task@, completed: self.completed }
    }
}

impl DeepView for Todo {
    type V = TodoView;

    open spec fn deep_view(&self) -> TodoView {
        self@
    }
}

impl Clone for Todo {
    fn clone(&self) -> (copy: Self)
        ensures
            copy == *self,
    {
        Todo { id: self.id, task: self.task.clone(), completed: self.completed }
    }
}

impl Todo {
    /// A new record for `task` under the identifier `id`, not yet completed.
    pub fn new(id: u128, task: String) -> (todo: Todo)
        ensures
            todo@ == TodoView::created(id, task@),
    {
        Todo { id: Some(id), task, completed: Some(false) }
    }
}

} // verus!
