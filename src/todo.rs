//! The two shapes of a todo: as the store keeps it, keyed by an integer, and
//! as callers see it, keyed by that integer's decimal text.
use vstd::prelude::*;

use crate::ident::{decimal_of, render_identifier};

verus! {

/// A todo as the store holds it.
#[derive(Debug)]
pub struct StoredTodo {
    pub id: i64,
    pub title: String,
    pub description: String,
    pub completed: bool,
}

/// A todo as it travels to and from callers.
#[derive(Debug, Clone, PartialEq, Eq)]
pub struct Todo {
    pub id: String,
    pub title: String,
    pub description: String,
    pub completed: bool,
}

pub ghost struct StoredTodoView {
    pub id: i64,
    pub title: Seq<char>,
    pub description: Seq<char>,
    pub completed: bool,
}

pub ghost struct TodoView {
    pub id: Seq<char>,
    pub title: Seq<char>,
    pub description: Seq<char>,
    pub completed: bool,
}

impl View for StoredTodo {
    type V = StoredTodoView;

    open spec fn view(&self) -> StoredTodoView {
        StoredTodoView {
            id: self.id,
            title: self.title@,
            description: self.description@,
            completed: self.completed,
        }
    }
}

impl View for Todo {
    type V = TodoView;

    open spec fn view(&self) -> TodoView {
        TodoView {
            id: self.id@,
            title: self.title@,
            description: self.description@,
            completed: self.completed,
        }
    }
}

/// The wire form of a stored todo: the identifier in decimal, the rest as is.
pub open spec fn wire_of(t: StoredTodoView) -> TodoView {
    TodoView {
        id: decimal_of(t.id as int),
        title: t.title,
        description: t.description,
        completed: t.completed,
    }
}

impl Clone for StoredTodo {
    fn clone(&self) -> (r: StoredTodo)
        ensures
            r@ == self@,
    {
        StoredTodo {
            id: self.id,
            title: self.title.clone(),
            description: self.description.clone(),
            completed: self.completed,
        }
    }
}

impl StoredTodo {
    /// Converts a stored todo to its wire form; never fails.
    pub fn to_wire(self) -> (r: Todo)
        ensures
            r@ == wire_of(self@),
    {
        Todo {
            id: render_identifier(self.id),
            title: self.title,
            description: self.description,
            completed: self.completed,
        }
    }
}

} // verus!
