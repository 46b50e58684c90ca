use std::collections::HashSet;

use todo_service::error::ServiceError;
use todo_service::service::InMemoryTodoService;
use todo_service::store::{MemoryStore, StoreError};
use todo_service::todo::Todo;

fn s(text: &str) -> String {
    text.to_string()
}

fn list(svc: &InMemoryTodoService) -> Vec<Todo> {
    svc.get_todos().expect("listing never fails in memory")
}

#[test]
fn empty_service_lists_nothing() {
    let svc = InMemoryTodoService::new();
    assert_eq!(svc.get_todos(), Ok(vec![]));
}

#[test]
fn create_then_list_round_trip() {
    let mut svc = InMemoryTodoService::new();
    let first = svc.create_todo(s("first"), s("")).unwrap();
    let before = list(&svc);
    let created = svc.create_todo(s("T"), s("D")).unwrap();
    assert_eq!(created.title, "T");
    assert_eq!(created.description, "D");
    assert!(!created.completed);
    assert_eq!(created.id, "2");
    assert_ne!(created.id, first.id);
    let after = list(&svc);
    assert_eq!(after.len(), before.len() + 1);
    assert_eq!(&after[..before.len()], &before[..]);
    assert_eq!(after[before.len()], created);
    assert!(before.iter().all(|t| t.id != created.id));
}

#[test]
fn titles_are_stored_verbatim() {
    let mut svc = InMemoryTodoService::new();
    let created = svc.create_todo(s("  padded title  "), s("")).unwrap();
    assert_eq!(created.title, "  padded title  ");
    assert_eq!(created.description, "");
    let empty = svc.create_todo(s(""), s("no title")).unwrap();
    assert_eq!(empty.title, "");
    assert_eq!(list(&svc), vec![created, empty]);
}

#[test]
fn update_overwrites_every_field() {
    let mut svc = InMemoryTodoService::new();
    svc.create_todo(s("a"), s("b")).unwrap();
    let updated = svc.update_todo("1", s("Updated Todo Title"), s("Updated description"), true);
    let expected = Todo {
        id: s("1"),
        title: s("Updated Todo Title"),
        description: s("Updated description"),
        completed: true,
    };
    assert_eq!(updated, Ok(expected.clone()));
    assert_eq!(list(&svc), vec![expected]);
}

#[test]
fn update_twice_is_idempotent() {
    let mut svc = InMemoryTodoService::new();
    svc.create_todo(s("a"), s("b")).unwrap();
    svc.create_todo(s("c"), s("d")).unwrap();
    let once = svc.update_todo("2", s("x"), s("y"), true);
    let after_once = list(&svc);
    let twice = svc.update_todo("2", s("x"), s("y"), true);
    assert_eq!(once, twice);
    assert_eq!(list(&svc), after_once);
}

#[test]
fn unknown_identifier_update_not_found_delete_false() {
    let mut svc = InMemoryTodoService::new();
    svc.create_todo(s("a"), s("b")).unwrap();
    let before = list(&svc);
    assert_eq!(
        svc.update_todo("999999", s("x"), s("y"), false),
        Err(ServiceError::NotFound)
    );
    assert_eq!(svc.delete_todo("999999"), Ok(false));
    assert_eq!(list(&svc), before);
}

#[test]
fn malformed_identifier_is_invalid_argument() {
    let mut svc = InMemoryTodoService::new();
    svc.create_todo(s("a"), s("b")).unwrap();
    let before = list(&svc);
    assert_eq!(
        svc.update_todo("not-a-number", s("x"), s("y"), true),
        Err(ServiceError::InvalidArgument)
    );
    assert_eq!(svc.delete_todo("not-a-number"), Err(ServiceError::InvalidArgument));
    assert_eq!(list(&svc), before);
}

#[test]
fn delete_then_list_removes_only_that_record() {
    let mut svc = InMemoryTodoService::new();
    for t in ["one", "two", "three"] {
        svc.create_todo(s(t), s("")).unwrap();
    }
    let before = list(&svc);
    assert_eq!(svc.delete_todo("2"), Ok(true));
    let after = list(&svc);
    assert_eq!(after, vec![before[0].clone(), before[2].clone()]);
    assert_eq!(svc.delete_todo("2"), Ok(false));
    assert_eq!(
        svc.update_todo("2", s("x"), s("y"), true),
        Err(ServiceError::NotFound)
    );
}

#[test]
fn identifiers_are_not_reused_after_delete() {
    let mut svc = InMemoryTodoService::new();
    svc.create_todo(s("a"), s("")).unwrap();
    svc.create_todo(s("b"), s("")).unwrap();
    assert_eq!(svc.delete_todo("2"), Ok(true));
    let c = svc.create_todo(s("c"), s("")).unwrap();
    assert_eq!(c.id, "3");
}

#[test]
fn many_creates_give_distinct_identifiers() {
    let mut svc = InMemoryTodoService::new();
    let n = 200;
    for k in 0..n {
        svc.create_todo(format!("todo {}", k), s("")).unwrap();
    }
    let all = list(&svc);
    assert_eq!(all.len(), n);
    let ids: HashSet<&str> = all.iter().map(|t| t.id.as_str()).collect();
    assert_eq!(ids.len(), n);
    for (k, t) in all.iter().enumerate() {
        assert_eq!(t.title, format!("todo {}", k));
    }
}

#[test]
fn memory_store_operations() {
    let mut store = MemoryStore::new();
    let a = store.create(s("a"), s("da")).unwrap();
    assert_eq!(a.id, 1);
    assert!(!a.completed);
    let b = store.create(s("b"), s("db")).unwrap();
    assert_eq!(b.id, 2);
    let u = store.update(1, s("A"), s("DA"), true).unwrap();
    assert_eq!((u.id, u.title.as_str(), u.description.as_str(), u.completed), (1, "A", "DA", true));
    assert!(matches!(store.update(7, s("x"), s("y"), false), Err(StoreError::NotFound)));
    assert!(store.delete(2));
    assert!(!store.delete(2));
    let rows = store.list();
    assert_eq!(rows.len(), 1);
    assert_eq!(rows[0].id, 1);
    assert_eq!(rows[0].title, "A");
}
