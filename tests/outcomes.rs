use todo_service::error::ServiceError;
use todo_service::service::{
    create_outcome, delete_outcome, list_outcome, update_outcome, wire_todos,
};
use todo_service::store::StoreError;
use todo_service::todo::{StoredTodo, Todo};

fn row(id: i64, title: &str, completed: bool) -> StoredTodo {
    StoredTodo {
        id,
        title: title.to_string(),
        description: format!("about {}", title),
        completed,
    }
}

fn wire(id: &str, title: &str, completed: bool) -> Todo {
    Todo {
        id: id.to_string(),
        title: title.to_string(),
        description: format!("about {}", title),
        completed,
    }
}

#[test]
fn list_outcome_converts_every_row_in_order() {
    let rows = vec![row(3, "c", false), row(1, "a", true), row(20, "b", false)];
    assert_eq!(
        list_outcome(Ok(rows)),
        Ok(vec![wire("3", "c", false), wire("1", "a", true), wire("20", "b", false)])
    );
    assert_eq!(list_outcome(Ok(vec![])), Ok(vec![]));
}

#[test]
fn list_outcome_store_failure_is_internal() {
    assert_eq!(list_outcome(Err(StoreError::Failure)), Err(ServiceError::Internal));
}

#[test]
fn wire_todos_keeps_order() {
    assert_eq!(
        wire_todos(vec![row(-4, "x", true), row(5, "y", false)]),
        vec![wire("-4", "x", true), wire("5", "y", false)]
    );
}

#[test]
fn create_outcome_maps_result() {
    assert_eq!(create_outcome(Ok(row(8, "t", false))), Ok(wire("8", "t", false)));
    assert_eq!(create_outcome(Err(StoreError::Failure)), Err(ServiceError::Internal));
}

#[test]
fn update_outcome_maps_result() {
    assert_eq!(update_outcome(Ok(row(9, "u", true))), Ok(wire("9", "u", true)));
    assert_eq!(update_outcome(Err(StoreError::NotFound)), Err(ServiceError::NotFound));
    assert_eq!(update_outcome(Err(StoreError::Failure)), Err(ServiceError::Internal));
}

#[test]
fn delete_outcome_maps_result() {
    assert_eq!(delete_outcome(Ok(true)), Ok(true));
    assert_eq!(delete_outcome(Ok(false)), Ok(false));
    assert_eq!(delete_outcome(Err(StoreError::Failure)), Err(ServiceError::Internal));
}
