//! An in-memory todo service: a store of todo records with unique ids, a
//! JSON codec for the bodies the service speaks over HTTP, and one handler
//! per route that turns a request into a status code and a body. Every
//! operation carries a contract that pins its result down, and the laws the
//! service obeys (round-trip, id uniqueness, update idempotence, delete
//! finality, list completeness) are proved in [`laws`].

use vstd::prelude::*;

pub mod codec;
pub mod handlers;
pub mod laws;
pub mod parse;
pub mod store;

verus! {

/// A single todo record: an opaque unique id, a free-text task, and a
/// completion flag.
pub struct Todo {
    pub id: String,
    pub task: String,
    pub completed: bool,
}

/// The mathematical model of a [`Todo`]: its fields as sequences of
/// characters and a boolean.
pub struct TodoView {
    pub id: Seq<char>,
    pub task: Seq<char>,
    pub completed: bool,
}

impl View for Todo {
    type V = TodoView;

    open spec fn view(&self) -> TodoView {
        TodoView { id: self.id@, task: self.task@, completed: self.completed }
    }
}

/// The models of a sequence of records, in order.
pub open spec fn views_of(ts: Seq<Todo>) -> Seq<TodoView> {
    ts.map(|_i: int, t: Todo| t@)
}

} // verus!
