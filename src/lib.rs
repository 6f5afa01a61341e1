//! A single-user task tracker: an ordered list of tasks with a status,
//! its mutations and queries, and the line-oriented command language
//! that drives it.
pub mod command;
pub mod laws;
pub mod text;
pub mod todo;
