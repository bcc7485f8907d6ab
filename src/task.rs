//! Items of a to-do list.
use vstd::prelude::*;

verus! {

/// A to-do item.
#[derive(Debug, Clone)]
pub struct Task {
    pub id: Option<i32>,
    pub description: String,
    pub completed: bool,
}

/// What a user submits to add a to-do item.
#[derive(Debug)]
pub struct Todo {
    pub description: String,
}

impl Task {
    /// The item that a submitted to-do becomes: not completed, and without an
    /// id until it is stored.
    pub fn from_todo(todo: Todo) -> (r: Task)
        ensures
            r.id is None,
            r.description == todo.description,
            !r.completed,
    {
        Task { id: None, description: todo.description, completed: false }
    }

    /// Flips whether the item is completed.
    pub fn toggle(&mut self)
        ensures
            final(self).completed == !old(self).completed,
            final(self).id == old(self).id,
            final(self).description == old(self).description,
    {
        self.completed = !self.completed;
    }
}

} // verus!
