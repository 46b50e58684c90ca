//! What holds of the service across calls, proved over the step models that
//! the methods' contracts use.
use vstd::prelude::*;

use crate::error::ServiceError;
use crate::ident::{decimal_of, identifier_of, lemma_identifier_round_trip};
use crate::service::{
    create_todo_step, delete_todo_step, get_todos_step, update_todo_step, wire_rows,
};
use crate::store::{create_step, holds_id, index_of, record, store_wf, StoreView};
use crate::todo::{wire_of, StoredTodoView};

verus! {

proof fn lemma_index_of(rows: Seq<StoredTodoView>, i: int)
    requires
        0 <= i < rows.len(),
        forall|a: int, b: int|
            0 <= a < b < rows.len() ==> #[trigger] rows[a].id != #[trigger] rows[b].id,
    ensures
        index_of(rows, rows[i].id) == Some(i),
{
    let id = rows[i].id;
    assert(holds_id(rows, id));
    let c = choose|c: int| 0 <= c < rows.len() && #[trigger] rows[c].id == id;
    if c < i {
        assert(rows[c].id != rows[i].id);
    } else if c > i {
        assert(rows[i].id != rows[c].id);
    }
}

/// Creating keeps the store well formed: identifiers stay unique and below the
/// next one to be handed out.
pub proof fn lemma_create_keeps_wf(s: StoreView, title: Seq<char>, description: Seq<char>)
    requires
        store_wf(s),
    ensures
        store_wf(create_todo_step(s, title, description).0),
{
}

/// Updating keeps the store well formed.
pub proof fn lemma_update_keeps_wf(
    s: StoreView,
    id: Seq<char>,
    title: Seq<char>,
    description: Seq<char>,
    completed: bool,
)
    requires
        store_wf(s),
    ensures
        store_wf(update_todo_step(s, id, title, description, completed).0),
{
    let t = update_todo_step(s, id, title, description, completed).0;
    if let Some(n) = identifier_of(id) {
        if let Some(i) = index_of(s.rows, n) {
            assert forall|a: int| 0 <= a < t.rows.len() implies #[trigger] t.rows[a].id == s.rows[a].id by {
            }
            assert forall|a: int, b: int|
                0 <= a < b < t.rows.len() implies #[trigger] t.rows[a].id != #[trigger] t.rows[b].id by {
                assert(t.rows[a].id == s.rows[a].id);
                assert(t.rows[b].id == s.rows[b].id);
            }
            assert forall|a: int| 0 <= a < t.rows.len() implies 1 <= #[trigger] t.rows[a].id < t.next_id by {
                assert(t.rows[a].id == s.rows[a].id);
            }
        }
    }
}

/// Deleting keeps the store well formed.
pub proof fn lemma_delete_keeps_wf(s: StoreView, id: Seq<char>)
    requires
        store_wf(s),
    ensures
        store_wf(delete_todo_step(s, id).0),
{
    let t = delete_todo_step(s, id).0;
    if let Some(n) = identifier_of(id) {
        if let Some(i) = index_of(s.rows, n) {
            assert forall|a: int, b: int|
                0 <= a < b < t.rows.len() implies #[trigger] t.rows[a].id != #[trigger] t.rows[b].id by {
                let a0 = if a < i { a } else { a + 1 };
                let b0 = if b < i { b } else { b + 1 };
                assert(t.rows[a] == s.rows[a0]);
                assert(t.rows[b] == s.rows[b0]);
            }
            assert forall|a: int| 0 <= a < t.rows.len() implies 1 <= #[trigger] t.rows[a].id < t.next_id by {
                let a0 = if a < i { a } else { a + 1 };
                assert(t.rows[a] == s.rows[a0]);
            }
        }
    }
}

/// Creating a todo and listing afterwards shows the listing from before with
/// exactly one record added: the given title and description, not completed,
/// under an identifier that no earlier record had. Creation succeeds whenever
/// the store has identifiers left.
pub proof fn lemma_create_then_list(s: StoreView, title: Seq<char>, description: Seq<char>)
    requires
        store_wf(s),
    ensures
        ({
            let (t, r) = create_todo_step(s, title, description);
            &&& s.next_id < i64::MAX ==> r is Ok
            &&& r is Ok ==> {
                let todo = r->Ok_0;
                &&& get_todos_step(t) == Ok::<Seq<_>, ServiceError>(
                    get_todos_step(s)->Ok_0.push(todo),
                )
                &&& todo.title == title
                &&& todo.description == description
                &&& !todo.completed
                &&& identifier_of(todo.id) == Some(s.next_id as i64)
                &&& forall|i: int|
                    0 <= i < s.rows.len() ==> #[trigger] wire_rows(s.rows)[i].id != todo.id
            }
        }),
{
    let (t, r) = create_todo_step(s, title, description);
    if r is Ok {
        let row = create_step(s, title, description).1->Ok_0;
        lemma_identifier_round_trip(row.id);
        assert(wire_rows(t.rows) =~= wire_rows(s.rows).push(wire_of(row)));
        assert forall|i: int| 0 <= i < s.rows.len() implies #[trigger] wire_rows(s.rows)[i].id
            != r->Ok_0.id by {
            lemma_identifier_round_trip(s.rows[i].id);
        }
    }
}

/// Applying the same update twice leaves the store as applying it once, and
/// gives the same reply.
pub proof fn lemma_update_idempotent(
    s: StoreView,
    id: Seq<char>,
    title: Seq<char>,
    description: Seq<char>,
    completed: bool,
)
    requires
        store_wf(s),
    ensures
        ({
            let (t1, r1) = update_todo_step(s, id, title, description, completed);
            let (t2, r2) = update_todo_step(t1, id, title, description, completed);
            t2 == t1 && r2 == r1
        }),
{
    if let Some(n) = identifier_of(id) {
        if let Some(i) = index_of(s.rows, n) {
            lemma_index_of(s.rows, i);
            let t1 = update_todo_step(s, id, title, description, completed).0;
            lemma_update_keeps_wf(s, id, title, description, completed);
            lemma_index_of(t1.rows, i);
            assert(t1.rows.update(i, t1.rows[i]) =~= t1.rows);
        }
    }
}

/// An identifier that no record has: updating it fails with not-found, and
/// deleting it reports that nothing was removed; neither changes the store.
pub proof fn lemma_unknown_identifier(
    s: StoreView,
    id: Seq<char>,
    title: Seq<char>,
    description: Seq<char>,
    completed: bool,
)
    requires
        identifier_of(id) is Some,
        !holds_id(s.rows, identifier_of(id)->Some_0),
    ensures
        update_todo_step(s, id, title, description, completed) == (
        s,
        Err::<crate::todo::TodoView, ServiceError>(ServiceError::NotFound),
        ),
        delete_todo_step(s, id) == (s, Ok::<bool, ServiceError>(false)),
{
}

/// A text that names no identifier: updating or deleting with it fails with
/// an invalid argument, and the store is left as it was.
pub proof fn lemma_malformed_identifier(
    s: StoreView,
    id: Seq<char>,
    title: Seq<char>,
    description: Seq<char>,
    completed: bool,
)
    requires
        identifier_of(id) is None,
    ensures
        update_todo_step(s, id, title, description, completed) == (
        s,
        Err::<crate::todo::TodoView, ServiceError>(ServiceError::InvalidArgument),
        ),
        delete_todo_step(s, id) == (s, Err::<bool, ServiceError>(ServiceError::InvalidArgument)),
{
}

/// Deleting a todo by the identifier that the listing shows for it succeeds,
/// and the next listing is the previous one without that todo, all others kept
/// in place.
pub proof fn lemma_delete_then_list(s: StoreView, i: int)
    requires
        store_wf(s),
        0 <= i < s.rows.len(),
    ensures
        ({
            let (t, r) = delete_todo_step(s, wire_rows(s.rows)[i].id);
            &&& r == Ok::<bool, ServiceError>(true)
            &&& get_todos_step(t) == Ok::<Seq<_>, ServiceError>(wire_rows(s.rows).remove(i))
        }),
{
    lemma_identifier_round_trip(s.rows[i].id);
    assert(wire_rows(s.rows)[i].id == decimal_of(s.rows[i].id as int));
    lemma_index_of(s.rows, i);
    let t = delete_todo_step(s, wire_rows(s.rows)[i].id).0;
    assert(wire_rows(t.rows) =~= wire_rows(s.rows).remove(i));
}

/// The store after creating one todo for each (title, description) pair, in order.
pub open spec fn create_all(s: StoreView, items: Seq<(Seq<char>, Seq<char>)>) -> StoreView
    decreases items.len(),
{
    if items.len() == 0 {
        s
    } else {
        create_todo_step(create_all(s, items.drop_last()), items.last().0, items.last().1).0
    }
}

/// Creating N todos one after another, as the store serialises concurrent
/// calls, adds N records with N distinct new identifiers, loses none of the
/// earlier records and duplicates nothing.
pub proof fn lemma_create_all(s: StoreView, items: Seq<(Seq<char>, Seq<char>)>)
    requires
        store_wf(s),
        s.next_id + items.len() <= i64::MAX,
    ensures
        ({
            let t = create_all(s, items);
            &&& store_wf(t)
            &&& t.next_id == s.next_id + items.len()
            &&& t.rows.len() == s.rows.len() + items.len()
            &&& t.rows.subrange(0, s.rows.len() as int) == s.rows
            &&& forall|k: int|
                0 <= k < items.len() ==> #[trigger] t.rows[s.rows.len() + k] == record(
                    (s.next_id + k) as i64,
                    items[k].0,
                    items[k].1,
                    false,
                )
        }),
    decreases items.len(),
{
    if items.len() > 0 {
        let prefix = items.drop_last();
        lemma_create_all(s, prefix);
        let p = create_all(s, prefix);
        lemma_create_keeps_wf(p, items.last().0, items.last().1);
        let t = create_all(s, items);
        assert(t.rows == p.rows.push(record(p.next_id as i64, items.last().0, items.last().1, false)));
        assert(t.rows.subrange(0, s.rows.len() as int) =~= p.rows.subrange(0, s.rows.len() as int));
        assert forall|k: int| 0 <= k < items.len() implies #[trigger] t.rows[s.rows.len() + k] == record(
            (s.next_id + k) as i64,
            items[k].0,
            items[k].1,
            false,
        ) by {
            if k < prefix.len() {
                assert(prefix[k] == items[k]);
                assert(t.rows[s.rows.len() + k] == p.rows[s.rows.len() + k]);
            }
        }
    } else {
        assert(s.rows.subrange(0, s.rows.len() as int) =~= s.rows);
    }
}

} // verus!
