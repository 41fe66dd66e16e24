//! The to-do entry itself: its fields, its mathematical view, and the one
//! mutation it ever undergoes (flipping `completed`).

use vstd::prelude::*;

verus! {

/// A single to-do entry.
///
/// `id` is an opaque unique identifier generated at creation; `task` is the
/// client-supplied text; `created_at` is a UTC timestamp in milliseconds since
/// the epoch, set once; `completed` starts false and is flipped by toggling.
pub struct Todo {
    pub id: String,
    pub task: String,
    pub created_at: i64,
    pub completed: bool,
}

/// The mathematical value of a [`Todo`]: character sequences for the strings,
/// an unbounded integer for the timestamp.
#[verifier::ext_equal]
pub ghost struct TodoView {
    pub id: Seq<char>,
    pub task: Seq<char>,
    pub created_at: int,
    pub completed: bool,
}

impl View for Todo {
    type V = TodoView;

    open spec fn view(&self) -> TodoView {
        TodoView {
            id: self.id@,
            task: self.task@,
            created_at: self.created_at as int,
            completed: self.completed,
        }
    }
}

impl TodoView {
    /// The same entry with `completed` negated and every other field kept.
    pub open spec fn flipped(self) -> TodoView {
        TodoView { completed: !self.completed, ..self }
    }
}

impl Todo {
    /// An identical copy of this entry.
    pub fn duplicate(&self) -> (r: Todo)
        ensures
            r == *self,
    {
        Todo {
            id: self.id.clone(),
            task: self.task.clone(),
            created_at: self.created_at,
            completed: self.completed,
        }
    }

    /// A copy of this entry with `completed` negated; all other fields are
    /// preserved, as the update operation requires.
    pub fn toggled(&self) -> (r: Todo)
        ensures
            r@ == self@.flipped(),
    {
        Todo {
            id: self.id.clone(),
            task: self.task.clone(),
            created_at: self.created_at,
            completed: !self.completed,
        }
    }
}

} // verus!
