//! The storage layer: an in-memory model of the two tables.
//!
//! A [`Store`] plays the role the relational database plays for the service:
//! it holds every inserted row, generates primary keys, and enforces the one
//! schema constraint, the foreign key from `posts.user_id` to `users.id`.
//! The four operations mirror the service's data-access layer: list all rows
//! of a table, or insert one new row and return it as stored.

use vstd::prelude::*;

use crate::model::{published_value, DbError, NewPost, NewUser, Post, User};

verus! {

/// True when the user table `users` holds a row whose primary key is `id`.
pub open spec fn has_user_id(users: Seq<User>, id: int) -> bool {
    exists|j: int| 0 <= j < users.len() && users[j].id == id
}

/// Primary keys are generated sequentially: the row at position `i` carries
/// id `i + 1`.
pub open spec fn user_ids_sequential(s: Seq<User>) -> bool {
    forall|i: int| 0 <= i < s.len() ==> (#[trigger] s[i]).id == i + 1
}

/// Primary keys are generated sequentially: the row at position `i` carries
/// id `i + 1`.
pub open spec fn post_ids_sequential(s: Seq<Post>) -> bool {
    forall|i: int| 0 <= i < s.len() ==> (#[trigger] s[i]).id == i + 1
}

/// The foreign-key constraint: every post references an existing user.
pub open spec fn foreign_key_holds(users: Seq<User>, posts: Seq<Post>) -> bool {
    forall|i: int| 0 <= i < posts.len() ==> has_user_id(users, (#[trigger] posts[i]).user_id as int)
}

/// The two tables of the schema. Rows are only ever appended: the service
/// exposes no update or delete operation.
pub struct Store {
    pub users: Vec<User>,
    pub posts: Vec<Post>,
}

impl Store {
    /// Well-formedness of the store: ids in both tables are the generated
    /// sequence 1, 2, 3, ... and the foreign-key constraint holds.
    pub open spec fn wf(&self) -> bool {
        &&& user_ids_sequential(self.users@)
        &&& post_ids_sequential(self.posts@)
        &&& foreign_key_holds(self.users@, self.posts@)
    }

    /// An empty store: both tables hold no rows.
    pub fn new() -> (s: Store)
        ensures
            s.wf(),
            s.users@ == Seq::<User>::empty(),
            s.posts@ == Seq::<Post>::empty(),
    {
        Store { users: Vec::new(), posts: Vec::new() }
    }
}

/// The foreign-key lookup: whether a row with primary key `id` exists in the
/// user table.
pub fn contains_user_id(users: &Vec<User>, id: i32) -> (r: bool)
    ensures
        r == has_user_id(users@, id as int),
{
    let mut j: usize = 0;
    while j < users.len()
        invariant
            j <= users@.len(),
            forall|k: int| 0 <= k < j ==> (#[trigger] users@[k]).id != id,
        decreases users@.len() - j,
    {
        if users[j].id == id {
            proof {
                assert(0 <= j < users@.len() && users@[j as int].id == id);
            }
            return true;
        }
        j += 1;
    }
    proof {
        assert(!has_user_id(users@, id as int)) by {
            if has_user_id(users@, id as int) {
                let k = choose|k: int| 0 <= k < users@.len() && users@[k].id == id;
                assert(users@[k].id != id);
            }
        }
    }
    false
}

/// Lists the user table: returns every stored row, in storage order.
pub fn db_all_users(store: &Store) -> (r: Vec<User>)
    ensures
        r@ == store.users@,
{
    let mut r: Vec<User> = Vec::new();
    let mut i: usize = 0;
    while i < store.users.len()
        invariant
            i <= store.users@.len(),
            r@ == store.users@.subrange(0, i as int),
        decreases store.users@.len() - i,
    {
        r.push(store.users[i].duplicate());
        i += 1;
        proof {
            assert(store.users@.subrange(0, i as int) =~= store.users@.subrange(
                0,
                i - 1,
            ).push(store.users@[i - 1]));
        }
    }
    proof {
        assert(r@ =~= store.users@);
    }
    r
}

/// Lists the post table: returns every stored row, in storage order.
pub fn db_all_posts(store: &Store) -> (r: Vec<Post>)
    ensures
        r@ == store.posts@,
{
    let mut r: Vec<Post> = Vec::new();
    let mut i: usize = 0;
    while i < store.posts.len()
        invariant
            i <= store.posts@.len(),
            r@ == store.posts@.subrange(0, i as int),
        decreases store.posts@.len() - i,
    {
        r.push(store.posts[i].duplicate());
        i += 1;
        proof {
            assert(store.posts@.subrange(0, i as int) =~= store.posts@.subrange(
                0,
                i - 1,
            ).push(store.posts@[i - 1]));
        }
    }
    proof {
        assert(r@ =~= store.posts@);
    }
    r
}

/// Inserts one user row and returns it as stored: the submitted fields
/// unchanged, together with the generated primary key. The length bound is
/// the machine limit on generated `i32` ids.
pub fn db_insert_user(store: &mut Store, new_user: &NewUser) -> (u: User)
    requires
        old(store).wf(),
        old(store).users@.len() < i32::MAX,
    ensures
        final(store).wf(),
        u.id == old(store).users@.len() + 1,
        u.name == new_user.name,
        u.age == new_user.age,
        final(store).users@ == old(store).users@.push(u),
        final(store).posts@ == old(store).posts@,
{
    let id: i32 = (store.users.len() + 1) as i32;
    let u = User { id, name: new_user.name.clone(), age: new_user.age };
    let stored = u.duplicate();
    store.users.push(stored);
    proof {
        assert(user_ids_sequential(store.users@)) by {
            assert forall|i: int| 0 <= i < store.users@.len() implies (#[trigger] store.users@[i]).id
                == i + 1 by {
                if i < old(store).users@.len() {
                    assert(store.users@[i] == old(store).users@[i]);
                }
            }
        }
        assert(foreign_key_holds(store.users@, store.posts@)) by {
            assert forall|i: int| 0 <= i < store.posts@.len() implies has_user_id(
                store.users@,
                (#[trigger] store.posts@[i]).user_id as int,
            ) by {
                let uid = store.posts@[i].user_id as int;
                assert(has_user_id(old(store).users@, uid));
                let j = choose|j: int|
                    0 <= j < old(store).users@.len() && old(store).users@[j].id == uid;
                assert(store.users@[j].id == uid);
            }
        }
    }
    u
}

/// Inserts one post row. Succeeds, returning the row as stored, if and only
/// if `user_id` references an existing user; otherwise reports the
/// constraint violation and stores nothing. An omitted `published` value is
/// stored as `false`. The length bound is the machine limit on generated
/// `i32` ids.
pub fn db_insert_post(store: &mut Store, new_post: &NewPost) -> (r: Result<Post, DbError>)
    requires
        old(store).wf(),
        old(store).posts@.len() < i32::MAX,
    ensures
        final(store).wf(),
        final(store).users@ == old(store).users@,
        match r {
            Ok(p) => {
                &&& has_user_id(old(store).users@, new_post.user_id as int)
                &&& p.id == old(store).posts@.len() + 1
                &&& p.title == new_post.title
                &&& p.body == new_post.body
                &&& p.published == published_value(new_post.published)
                &&& p.user_id == new_post.user_id
                &&& final(store).posts@ == old(store).posts@.push(p)
            },
            Err(e) => {
                &&& e == DbError::ConstraintViolation
                &&& !has_user_id(old(store).users@, new_post.user_id as int)
                &&& final(store).posts@ == old(store).posts@
            },
        },
{
    if !contains_user_id(&store.users, new_post.user_id) {
        return Err(DbError::ConstraintViolation);
    }
    let id: i32 = (store.posts.len() + 1) as i32;
    let published: bool = match new_post.published {
        Some(b) => b,
        None => false,
    };
    let p = Post {
        id,
        title: new_post.title.clone(),
        body: new_post.body.clone(),
        published,
        user_id: new_post.user_id,
    };
    let stored = p.duplicate();
    store.posts.push(stored);
    proof {
        assert(post_ids_sequential(store.posts@)) by {
            assert forall|i: int| 0 <= i < store.posts@.len() implies (#[trigger] store.posts@[i]).id
                == i + 1 by {
                if i < old(store).posts@.len() {
                    assert(store.posts@[i] == old(store).posts@[i]);
                }
            }
        }
        assert(foreign_key_holds(store.users@, store.posts@)) by {
            assert forall|i: int| 0 <= i < store.posts@.len() implies has_user_id(
                store.users@,
                (#[trigger] store.posts@[i]).user_id as int,
            ) by {
                if i < old(store).posts@.len() {
                    assert(store.posts@[i] == old(store).posts@[i]);
                }
            }
        }
    }
    Ok(p)
}

/// Round-trip law for users: an insert followed by a listing shows the new
/// row last, every submitted field unchanged together with the generated
/// id, and every earlier row untouched. The premises are what
/// `db_insert_user` ensures of the insert and `db_all_users` of the
/// listing.
pub proof fn lemma_user_insert_round_trip(
    pre: Store,
    post: Store,
    nu: NewUser,
    u: User,
    listed: Seq<User>,
)
    requires
        post.users@ == pre.users@.push(u),
        u.id == pre.users@.len() + 1,
        u.name == nu.name,
        u.age == nu.age,
        listed == post.users@,
    ensures
        listed.len() == pre.users@.len() + 1,
        listed.last().id == pre.users@.len() + 1,
        listed.last().name == nu.name,
        listed.last().age == nu.age,
        listed.subrange(0, listed.len() - 1) == pre.users@,
{
    assert(listed.subrange(0, listed.len() - 1) =~= pre.users@);
}

/// Round-trip law for posts: a successful insert followed by a listing
/// shows the new row last, every submitted field unchanged (`published`
/// defaulted to `false` when omitted) together with the generated id, and
/// every earlier row untouched. The premises are what `db_insert_post`
/// ensures of a successful insert and `db_all_posts` of the listing.
pub proof fn lemma_post_insert_round_trip(
    pre: Store,
    post: Store,
    np: NewPost,
    p: Post,
    listed: Seq<Post>,
)
    requires
        post.posts@ == pre.posts@.push(p),
        p.id == pre.posts@.len() + 1,
        p.title == np.title,
        p.body == np.body,
        p.published == published_value(np.published),
        p.user_id == np.user_id,
        listed == post.posts@,
    ensures
        listed.len() == pre.posts@.len() + 1,
        listed.last().id == pre.posts@.len() + 1,
        listed.last().title == np.title,
        listed.last().body == np.body,
        listed.last().published == published_value(np.published),
        listed.last().user_id == np.user_id,
        listed.subrange(0, listed.len() - 1) == pre.posts@,
{
    assert(listed.subrange(0, listed.len() - 1) =~= pre.posts@);
}

} // verus!
