//! A verified storage core for a small users-and-posts service.
//!
//! The library models two relational tables (`users` and `posts`) as an
//! in-memory [`store::Store`], together with the row types that an HTTP
//! front end exchanges with it and the query operations the service needs:
//! listing rows, inserting rows with generated primary keys, filtering posts
//! by author, and ordering rows by a column. Every operation carries a
//! contract that pins down exactly which rows come back and in what order,
//! and the store maintains the schema's foreign-key invariant: every post
//! references an existing user.

pub mod model;
pub mod query;
pub mod store;
