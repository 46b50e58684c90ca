//! The record store: its state as a mathematical model, each operation as a
//! step on that model, and an in-memory store that performs those steps.
use vstd::prelude::*;

use crate::todo::{StoredTodo, StoredTodoView};

verus! {

/// Why a store operation did not complete.
#[derive(Debug, Clone, Copy, PartialEq, Eq, Structural)]
pub enum StoreError {
    /// No record has the identifier.
    NotFound,
    /// The store itself failed (unreachable, timed out, out of identifiers).
    Failure,
}

/// The store's state: its records, and the identifier that the next created
/// record receives. Identifiers only grow, so none is handed out twice.
pub ghost struct StoreView {
    pub rows: Seq<StoredTodoView>,
    pub next_id: int,
}

/// Every record has an identifier that was handed out before, and no two
/// records share one.
pub open spec fn store_wf(s: StoreView) -> bool {
    &&& 1 <= s.next_id <= i64::MAX
    &&& forall|i: int| 0 <= i < s.rows.len() ==> 1 <= #[trigger] s.rows[i].id < s.next_id
    &&& forall|i: int, j: int|
        0 <= i < j < s.rows.len() ==> #[trigger] s.rows[i].id != #[trigger] s.rows[j].id
}

pub open spec fn holds_id(rows: Seq<StoredTodoView>, id: i64) -> bool {
    exists|i: int| 0 <= i < rows.len() && #[trigger] rows[i].id == id
}

/// The position of the record with identifier `id`, if any.
pub open spec fn index_of(rows: Seq<StoredTodoView>, id: i64) -> Option<int> {
    if holds_id(rows, id) {
        Some(choose|i: int| 0 <= i < rows.len() && #[trigger] rows[i].id == id)
    } else {
        None
    }
}

pub open spec fn record(
    id: i64,
    title: Seq<char>,
    description: Seq<char>,
    completed: bool,
) -> StoredTodoView {
    StoredTodoView { id, title, description, completed }
}

/// Creating inserts a record that is not completed, under the next identifier;
/// it fails only when the identifiers are used up.
pub open spec fn create_step(s: StoreView, title: Seq<char>, description: Seq<char>) -> (
    StoreView,
    Result<StoredTodoView, StoreError>,
) {
    if s.next_id < i64::MAX {
        let row = record(s.next_id as i64, title, description, false);
        (StoreView { rows: s.rows.push(row), next_id: s.next_id + 1 }, Ok(row))
    } else {
        (s, Err(StoreError::Failure))
    }
}

/// Updating overwrites every field of the record with identifier `id` in place.
pub open spec fn update_step(
    s: StoreView,
    id: i64,
    title: Seq<char>,
    description: Seq<char>,
    completed: bool,
) -> (StoreView, Result<StoredTodoView, StoreError>) {
    match index_of(s.rows, id) {
        Some(i) => {
            let row = record(id, title, description, completed);
            (StoreView { rows: s.rows.update(i, row), next_id: s.next_id }, Ok(row))
        },
        None => (s, Err(StoreError::NotFound)),
    }
}

/// Deleting removes the record with identifier `id`, and says whether there was one.
pub open spec fn delete_step(s: StoreView, id: i64) -> (StoreView, bool) {
    match index_of(s.rows, id) {
        Some(i) => (StoreView { rows: s.rows.remove(i), next_id: s.next_id }, true),
        None => (s, false),
    }
}

pub open spec fn row_result(r: Result<StoredTodo, StoreError>) -> Result<StoredTodoView, StoreError> {
    match r {
        Ok(t) => Ok(t@),
        Err(e) => Err(e),
    }
}

/// A record store held in memory.
pub struct MemoryStore {
    rows: Vec<StoredTodo>,
    next_id: i64,
}

impl View for MemoryStore {
    type V = StoreView;

    closed spec fn view(&self) -> StoreView {
        StoreView { rows: self.rows@.map_values(|t: StoredTodo| t@), next_id: self.next_id as int }
    }
}

impl MemoryStore {
    pub open spec fn wf(&self) -> bool {
        store_wf(self@)
    }

    /// An empty store; the first record created gets identifier 1.
    pub fn new() -> (r: MemoryStore)
        ensures
            r.wf(),
            r@.rows.len() == 0,
            r@.next_id == 1,
    {
        let r = MemoryStore { rows: Vec::new(), next_id: 1 };
        assert(r@.rows =~= Seq::<StoredTodoView>::empty());
        r
    }

    fn position(&self, id: i64) -> (r: Option<usize>)
        requires
            self.wf(),
        ensures
            match index_of(self@.rows, id) {
                Some(i) => r == Some(i as usize),
                None => r is None,
            },
    {
        let mut i: usize = 0;
        while i < self.rows.len()
            invariant
                self.wf(),
                i <= self.rows@.len(),
                self@.rows.len() == self.rows@.len(),
                forall|j: int| 0 <= j < i ==> self@.rows[j].id != id,
            decreases self.rows@.len() - i,
        {
            assert(self@.rows[i as int] == self.rows@[i as int]@);
            if self.rows[i].id == id {
                assert(self@.rows[i as int].id == id);
                assert(holds_id(self@.rows, id));
                let ghost c = choose|c: int| 0 <= c < self@.rows.len() && #[trigger] self@.rows[c].id == id;
                assert(c == i) by {
                    if c < i {
                    } else if c > i {
                        assert(self@.rows[i as int].id != self@.rows[c].id);
                    }
                }
                return Some(i);
            }
            i = i + 1;
        }
        None
    }

    /// All records, in the order in which they were created.
    pub fn list(&self) -> (r: Vec<StoredTodo>)
        ensures
            r@.map_values(|t: StoredTodo| t@) == self@.rows,
    {
        let mut out: Vec<StoredTodo> = Vec::new();
        let mut i: usize = 0;
        while i < self.rows.len()
            invariant
                i <= self.rows@.len(),
                self@.rows.len() == self.rows@.len(),
                out@.map_values(|t: StoredTodo| t@) == self@.rows.subrange(0, i as int),
            decreases self.rows@.len() - i,
        {
            let row = self.rows[i].clone();
            let ghost before = out@;
            out.push(row);
            assert(out@.map_values(|t: StoredTodo| t@) =~= before.map_values(|t: StoredTodo| t@).push(row@));
            assert(self@.rows.subrange(0, i as int + 1) =~= self@.rows.subrange(0, i as int).push(self@.rows[i as int]));
            i = i + 1;
        }
        assert(self@.rows.subrange(0, i as int) =~= self@.rows);
        out
    }

    /// Inserts a record that is not completed under the next identifier.
    pub fn create(&mut self, title: String, description: String) -> (r: Result<StoredTodo, StoreError>)
        requires
            old(self).wf(),
        ensures
            final(self).wf(),
            (final(self)@, row_result(r)) == create_step(old(self)@, title@, description@),
    {
        if self.next_id == i64::MAX {
            return Err(StoreError::Failure);
        }
        let row = StoredTodo { id: self.next_id, title, description, completed: false };
        let ghost pre = self@;
        self.rows.push(row.clone());
        self.next_id = self.next_id + 1;
        assert(self@.rows =~= pre.rows.push(row@));
        Ok(row)
    }

    /// Overwrites the record with identifier `id`, if there is one.
    pub fn update(
        &mut self,
        id: i64,
        title: String,
        description: String,
        completed: bool,
    ) -> (r: Result<StoredTodo, StoreError>)
        requires
            old(self).wf(),
        ensures
            final(self).wf(),
            (final(self)@, row_result(r)) == update_step(
                old(self)@,
                id,
                title@,
                description@,
                completed,
            ),
    {
        match self.position(id) {
            Some(i) => {
                let row = StoredTodo { id, title, description, completed };
                let ghost pre = self@;
                self.rows.set(i, row.clone());
                assert(self@.rows =~= pre.rows.update(i as int, row@));
                assert forall|a: int, b: int|
                    0 <= a < b < self@.rows.len() implies #[trigger] self@.rows[a].id
                    != #[trigger] self@.rows[b].id by {
                    assert(pre.rows[a].id == self@.rows[a].id);
                    assert(pre.rows[b].id == self@.rows[b].id);
                }
                assert forall|a: int| 0 <= a < self@.rows.len() implies 1 <= #[trigger] self@.rows[a].id
                    < self@.next_id by {
                    assert(pre.rows[a].id == self@.rows[a].id);
                }
                Ok(row)
            },
            None => Err(StoreError::NotFound),
        }
    }

    /// Removes the record with identifier `id`; says whether there was one.
    pub fn delete(&mut self, id: i64) -> (r: bool)
        requires
            old(self).wf(),
        ensures
            final(self).wf(),
            (final(self)@, r) == delete_step(old(self)@, id),
    {
        match self.position(id) {
            Some(i) => {
                let ghost pre = self@;
                self.rows.remove(i);
                assert(self@.rows =~= pre.rows.remove(i as int));
                assert forall|a: int, b: int|
                    0 <= a < b < self@.rows.len() implies #[trigger] self@.rows[a].id
                    != #[trigger] self@.rows[b].id by {
                    let a0 = if a < i { a } else { a + 1 };
                    let b0 = if b < i { b } else { b + 1 };
                    assert(pre.rows[a0].id != pre.rows[b0].id);
                }
                assert forall|a: int| 0 <= a < self@.rows.len() implies 1 <= #[trigger] self@.rows[a].id
                    < self@.next_id by {
                    let a0 = if a < i { a } else { a + 1 };
                    assert(pre.rows[a0] == self@.rows[a]);
                }
                true
            },
            None => false,
        }
    }
}

} // verus!
