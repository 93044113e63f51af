//! An in-memory collection of todo records with the operations of a small
//! task service: list, add, update, delete, export and import, together with
//! the replies that the service gives to each request.

pub mod api;
pub mod error;
pub mod ident;
pub mod laws;
pub mod lemmas;
pub mod model;
pub mod store;
pub mod todo;
