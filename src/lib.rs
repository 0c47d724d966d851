//! An in-memory store of tasks and users, keyed by id, with the login and
//! cross-origin rules of the service built on it.

pub mod access;
pub mod laws;
pub mod store;
