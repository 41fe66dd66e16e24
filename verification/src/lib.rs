//! A small verified to-do store: a collection of tasks kept as one document,
//! with list, create, toggle and delete operations and their HTTP-style
//! responses.

pub mod collection;
pub mod laws;
pub mod response;
pub mod todo;
