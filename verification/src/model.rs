//! Row types of the two tables and the storage error.
//!
//! `User` and `Post` are rows as stored, primary key included; `NewUser` and
//! `NewPost` are the corresponding insert payloads, which omit the generated
//! id. `NewPost` additionally leaves `published` optional: an omitted value
//! is stored as `false`.

use vstd::prelude::*;

verus! {

/// A stored user row: the generated primary key together with the submitted
/// fields.
#[derive(Debug)]
pub struct User {
    pub id: i32,
    pub name: String,
    pub age: i32,
}

/// The insert payload for a user: the same shape as `User` without the
/// generated id.
#[derive(Debug)]
pub struct NewUser {
    pub name: String,
    pub age: i32,
}

/// A stored post row. `user_id` is a foreign key referencing `User::id`.
#[derive(Debug)]
pub struct Post {
    pub id: i32,
    pub title: String,
    pub body: String,
    pub published: bool,
    pub user_id: i32,
}

/// The insert payload for a post: no id, and `published` may be omitted,
/// in which case the row is stored with `published == false`.
#[derive(Debug)]
pub struct NewPost {
    pub title: String,
    pub body: String,
    pub published: Option<bool>,
    pub user_id: i32,
}

/// The error a storage operation reports when the inserted row violates a
/// constraint of the schema (here: a post whose `user_id` references no
/// existing user).
#[derive(Clone, Copy, Debug, PartialEq, Eq, Structural)]
pub enum DbError {
    ConstraintViolation,
}

/// The value the storage layer gives a post's `published` flag: the
/// submitted value, or `false` when the payload omits it.
pub open spec fn published_value(p: Option<bool>) -> bool {
    match p {
        Some(b) => b,
        None => false,
    }
}

impl User {
    /// An exact copy of the row.
    pub fn duplicate(&self) -> (r: User)
        ensures
            r == *self,
    {
        User { id: self.id, name: self.name.clone(), age: self.age }
    }
}

impl Post {
    /// An exact copy of the row.
    pub fn duplicate(&self) -> (r: Post)
        ensures
            r == *self,
    {
        Post {
            id: self.id,
            title: self.title.clone(),
            body: self.body.clone(),
            published: self.published,
            user_id: self.user_id,
        }
    }
}

} // verus!
