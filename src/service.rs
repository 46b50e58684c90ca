//! The four service methods. Each one turns a request into at most one store
//! operation and the store's answer into a reply; the functions named
//! `*_outcome` hold the second half, so that any store can be put behind them.
use vstd::prelude::*;

use crate::error::ServiceError;
use crate::ident::{identifier_of, parse_identifier};
use crate::store::{
    create_step, delete_step, row_result, update_step, MemoryStore, StoreError, StoreView,
};
use crate::todo::{wire_of, StoredTodo, StoredTodoView, Todo, TodoView};

verus! {

pub open spec fn wire_rows(rows: Seq<StoredTodoView>) -> Seq<TodoView> {
    rows.map_values(|t: StoredTodoView| wire_of(t))
}

pub open spec fn todo_result(r: Result<Todo, ServiceError>) -> Result<TodoView, ServiceError> {
    match r {
        Ok(t) => Ok(t@),
        Err(e) => Err(e),
    }
}

pub open spec fn todos_result(r: Result<Vec<Todo>, ServiceError>) -> Result<Seq<TodoView>, ServiceError> {
    match r {
        Ok(v) => Ok(v@.map_values(|t: Todo| t@)),
        Err(e) => Err(e),
    }
}

pub open spec fn rows_result(r: Result<Vec<StoredTodo>, StoreError>) -> Result<Seq<StoredTodoView>, StoreError> {
    match r {
        Ok(v) => Ok(v@.map_values(|t: StoredTodo| t@)),
        Err(e) => Err(e),
    }
}

/// Listing replies with every record in wire form; any store error is internal.
pub open spec fn list_reply(r: Result<Seq<StoredTodoView>, StoreError>) -> Result<Seq<TodoView>, ServiceError> {
    match r {
        Ok(rows) => Ok(wire_rows(rows)),
        Err(_) => Err(ServiceError::Internal),
    }
}

/// Creating replies with the new record in wire form; any store error is internal.
pub open spec fn create_reply(r: Result<StoredTodoView, StoreError>) -> Result<TodoView, ServiceError> {
    match r {
        Ok(row) => Ok(wire_of(row)),
        Err(_) => Err(ServiceError::Internal),
    }
}

/// Updating replies with the record as written; a missing record is reported
/// as such, any other store error is internal.
pub open spec fn update_reply(r: Result<StoredTodoView, StoreError>) -> Result<TodoView, ServiceError> {
    match r {
        Ok(row) => Ok(wire_of(row)),
        Err(StoreError::NotFound) => Err(ServiceError::NotFound),
        Err(StoreError::Failure) => Err(ServiceError::Internal),
    }
}

/// Deleting replies whether a record was removed; any store error is internal.
pub open spec fn delete_reply(r: Result<bool, StoreError>) -> Result<bool, ServiceError> {
    match r {
        Ok(b) => Ok(b),
        Err(_) => Err(ServiceError::Internal),
    }
}

/// Converts stored todos to their wire form, keeping their order.
pub fn wire_todos(rows: Vec<StoredTodo>) -> (r: Vec<Todo>)
    ensures
        r@.map_values(|t: Todo| t@) == wire_rows(rows@.map_values(|t: StoredTodo| t@)),
{
    let ghost src = rows@;
    let mut out: Vec<Todo> = Vec::new();
    let mut i: usize = 0;
    while i < rows.len()
        invariant
            src == rows@,
            i <= src.len(),
            out@.len() == i,
            forall|j: int| 0 <= j < i ==> #[trigger] out@[j]@ == wire_of(src[j]@),
        decreases src.len() - i,
    {
        out.push(rows[i].clone().to_wire());
        i = i + 1;
    }
    assert(out@.map_values(|t: Todo| t@) =~= wire_rows(src.map_values(|t: StoredTodo| t@)));
    out
}

/// The reply to a listing, given what the store returned.
pub fn list_outcome(rows: Result<Vec<StoredTodo>, StoreError>) -> (r: Result<Vec<Todo>, ServiceError>)
    ensures
        todos_result(r) == list_reply(rows_result(rows)),
{
    match rows {
        Ok(v) => Ok(wire_todos(v)),
        Err(_) => Err(ServiceError::Internal),
    }
}

/// The reply to a creation, given what the store returned.
pub fn create_outcome(row: Result<StoredTodo, StoreError>) -> (r: Result<Todo, ServiceError>)
    ensures
        todo_result(r) == create_reply(row_result(row)),
{
    match row {
        Ok(t) => Ok(t.to_wire()),
        Err(_) => Err(ServiceError::Internal),
    }
}

/// The reply to an update, given what the store returned.
pub fn update_outcome(row: Result<StoredTodo, StoreError>) -> (r: Result<Todo, ServiceError>)
    ensures
        todo_result(r) == update_reply(row_result(row)),
{
    match row {
        Ok(t) => Ok(t.to_wire()),
        Err(StoreError::NotFound) => Err(ServiceError::NotFound),
        Err(StoreError::Failure) => Err(ServiceError::Internal),
    }
}

/// The reply to a deletion, given what the store returned.
pub fn delete_outcome(removed: Result<bool, StoreError>) -> (r: Result<bool, ServiceError>)
    ensures
        r == delete_reply(removed),
{
    match removed {
        Ok(b) => Ok(b),
        Err(_) => Err(ServiceError::Internal),
    }
}

/// The service's answer to a listing on a store in state `s`.
pub open spec fn get_todos_step(s: StoreView) -> Result<Seq<TodoView>, ServiceError> {
    list_reply(Ok(s.rows))
}

/// The service's creation on a store in state `s`: the next state and the reply.
pub open spec fn create_todo_step(s: StoreView, title: Seq<char>, description: Seq<char>) -> (
    StoreView,
    Result<TodoView, ServiceError>,
) {
    (create_step(s, title, description).0, create_reply(create_step(s, title, description).1))
}

/// The service's update on a store in state `s`. A text that names no
/// identifier is refused before the store is touched.
pub open spec fn update_todo_step(
    s: StoreView,
    id: Seq<char>,
    title: Seq<char>,
    description: Seq<char>,
    completed: bool,
) -> (StoreView, Result<TodoView, ServiceError>) {
    match identifier_of(id) {
        Some(n) => (
            update_step(s, n, title, description, completed).0,
            update_reply(update_step(s, n, title, description, completed).1),
        ),
        None => (s, Err(ServiceError::InvalidArgument)),
    }
}

/// The service's deletion on a store in state `s`. A text that names no
/// identifier is refused before the store is touched.
pub open spec fn delete_todo_step(s: StoreView, id: Seq<char>) -> (StoreView, Result<bool, ServiceError>) {
    match identifier_of(id) {
        Some(n) => (delete_step(s, n).0, delete_reply(Ok(delete_step(s, n).1))),
        None => (s, Err(ServiceError::InvalidArgument)),
    }
}

/// The todo service over a store held in memory.
pub struct InMemoryTodoService {
    store: MemoryStore,
}

impl View for InMemoryTodoService {
    type V = StoreView;

    closed spec fn view(&self) -> StoreView {
        self.store@
    }
}

impl InMemoryTodoService {
    pub open spec fn wf(&self) -> bool {
        crate::store::store_wf(self@)
    }

    /// A service over an empty store.
    pub fn new() -> (r: InMemoryTodoService)
        ensures
            r.wf(),
            r@.rows.len() == 0,
            r@.next_id == 1,
    {
        InMemoryTodoService { store: MemoryStore::new() }
    }

    /// Every todo, in wire form.
    pub fn get_todos(&self) -> (r: Result<Vec<Todo>, ServiceError>)
        ensures
            todos_result(r) == get_todos_step(self@),
    {
        list_outcome(Ok(self.store.list()))
    }

    /// Creates a todo that is not completed, with a fresh identifier.
    pub fn create_todo(&mut self, title: String, description: String) -> (r: Result<Todo, ServiceError>)
        requires
            old(self).wf(),
        ensures
            final(self).wf(),
            (final(self)@, todo_result(r)) == create_todo_step(old(self)@, title@, description@),
    {
        let row = self.store.create(title, description);
        create_outcome(row)
    }

    /// Overwrites the todo whose identifier `id` names.
    pub fn update_todo(
        &mut self,
        id: &str,
        title: String,
        description: String,
        completed: bool,
    ) -> (r: Result<Todo, ServiceError>)
        requires
            old(self).wf(),
        ensures
            final(self).wf(),
            (final(self)@, todo_result(r)) == update_todo_step(
                old(self)@,
                id@,
                title@,
                description@,
                completed,
            ),
    {
        let n = match parse_identifier(id) {
            Ok(n) => n,
            Err(e) => return Err(e),
        };
        let row = self.store.update(n, title, description, completed);
        update_outcome(row)
    }

    /// Deletes the todo whose identifier `id` names; says whether there was one.
    pub fn delete_todo(&mut self, id: &str) -> (r: Result<bool, ServiceError>)
        requires
            old(self).wf(),
        ensures
            final(self).wf(),
            (final(self)@, r) == delete_todo_step(old(self)@, id@),
    {
        let n = match parse_identifier(id) {
            Ok(n) => n,
            Err(e) => return Err(e),
        };
        let removed = self.store.delete(n);
        delete_outcome(Ok(removed))
    }
}

} // verus!
