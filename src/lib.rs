//! A todo-list service over a single-table record store: the wire and stored
//! shapes of a todo, the conversions between them, the store's contract with an
//! in-memory implementation, and the decisions of the four service methods.

pub mod error;
pub mod ident;
pub mod todo;
pub mod store;
pub mod service;
pub mod laws;
