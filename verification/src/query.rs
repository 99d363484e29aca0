//! The query operations of the service: ordering and filtering listed rows.
//!
//! The service orders users by age (descending) and posts by title, and
//! filters posts by their author's id. Titles are ordered lexicographically
//! by code point, the one total order on strings this library defines. Each
//! sort returns a permutation of its input (stated as multiset equality)
//! arranged according to the respective order; the filter keeps exactly the
//! matching rows, in storage order.

use vstd::prelude::*;
use vstd::string::StrSliceExecFns;

use crate::model::{Post, User};

verus! {

broadcast use {vstd::seq_lib::group_to_multiset_ensures, vstd::seq_lib::group_filter_ensures, vstd::multiset::group_multiset_axioms};

/// Lexicographic order on strings, by code point: the empty string precedes
/// everything, and otherwise the first differing position decides.
pub open spec fn lex_le(a: Seq<char>, b: Seq<char>) -> bool
    decreases a.len(),
{
    if a.len() == 0 {
        true
    } else if b.len() == 0 {
        false
    } else if a[0] as u32 == b[0] as u32 {
        lex_le(a.drop_first(), b.drop_first())
    } else {
        (a[0] as u32) < (b[0] as u32)
    }
}

/// The order is reflexive.
pub proof fn lemma_lex_le_refl(a: Seq<char>)
    ensures
        lex_le(a, a),
    decreases a.len(),
{
    if a.len() != 0 {
        lemma_lex_le_refl(a.drop_first());
    }
}

/// The order is total: of any two strings, one precedes the other.
pub proof fn lemma_lex_le_total(a: Seq<char>, b: Seq<char>)
    ensures
        lex_le(a, b) || lex_le(b, a),
    decreases a.len(),
{
    if a.len() != 0 && b.len() != 0 && a[0] as u32 == b[0] as u32 {
        lemma_lex_le_total(a.drop_first(), b.drop_first());
    }
}

/// The order is transitive.
pub proof fn lemma_lex_le_trans(a: Seq<char>, b: Seq<char>, c: Seq<char>)
    requires
        lex_le(a, b),
        lex_le(b, c),
    ensures
        lex_le(a, c),
    decreases a.len(),
{
    if a.len() != 0 {
        if a[0] as u32 == b[0] as u32 && b[0] as u32 == c[0] as u32 {
            lemma_lex_le_trans(a.drop_first(), b.drop_first(), c.drop_first());
        }
    }
}

/// Decides `lex_le` on two strings.
pub fn str_le(a: &str, b: &str) -> (r: bool)
    ensures
        r == lex_le(a@, b@),
{
    let a_len: usize = a.unicode_len();
    let b_len: usize = b.unicode_len();
    let mut i: usize = 0;
    proof {
        assert(a@.skip(0) =~= a@);
        assert(b@.skip(0) =~= b@);
    }
    while i < a_len && i < b_len
        invariant
            a_len == a@.len(),
            b_len == b@.len(),
            i <= a_len,
            i <= b_len,
            lex_le(a@, b@) == lex_le(a@.skip(i as int), b@.skip(i as int)),
        decreases a_len - i,
    {
        let ca = a.get_char(i);
        let cb = b.get_char(i);
        proof {
            assert(a@.skip(i as int)[0] == a@[i as int]);
            assert(b@.skip(i as int)[0] == b@[i as int]);
        }
        if (ca as u32) != (cb as u32) {
            return (ca as u32) < (cb as u32);
        }
        proof {
            assert(a@.skip(i as int).drop_first() =~= a@.skip(i as int + 1));
            assert(b@.skip(i as int).drop_first() =~= b@.skip(i as int + 1));
        }
        i += 1;
    }
    proof {
        if i >= a_len {
            assert(a@.skip(i as int).len() == 0);
            assert(lex_le(a@.skip(i as int), b@.skip(i as int)));
        } else {
            assert(b@.skip(i as int).len() == 0);
            assert(a@.skip(i as int).len() > 0);
            assert(!lex_le(a@.skip(i as int), b@.skip(i as int)));
        }
    }
    i >= a_len
}

/// Post `a` precedes post `b` in the title order.
pub open spec fn title_le(a: Post, b: Post) -> bool {
    lex_le(a.title@, b.title@)
}

/// The sequence is ordered by title, ascending.
pub open spec fn posts_sorted_by_title(s: Seq<Post>) -> bool {
    forall|i: int, j: int| 0 <= i < j < s.len() ==> #[trigger] title_le(s[i], s[j])
}

/// User `a` precedes user `b` in the age order, descending: the older (or
/// equally old) user comes first.
pub open spec fn age_desc_le(a: User, b: User) -> bool {
    a.age >= b.age
}

/// The sequence is ordered by age, descending.
pub open spec fn users_sorted_by_age_desc(s: Seq<User>) -> bool {
    forall|i: int, j: int| 0 <= i < j < s.len() ==> #[trigger] age_desc_le(s[i], s[j])
}

/// The position of a row whose title precedes every title in `v`.
fn min_title_index(v: &Vec<Post>) -> (m: usize)
    requires
        v@.len() > 0,
    ensures
        m < v@.len(),
        forall|j: int| 0 <= j < v@.len() ==> title_le(v@[m as int], #[trigger] v@[j]),
{
    let mut m: usize = 0;
    let mut k: usize = 1;
    proof {
        lemma_lex_le_refl(v@[0].title@);
    }
    while k < v.len()
        invariant
            m < k <= v@.len(),
            forall|j: int| 0 <= j < k ==> title_le(v@[m as int], #[trigger] v@[j]),
        decreases v@.len() - k,
    {
        if str_le(v[k].title.as_str(), v[m].title.as_str()) {
            proof {
                assert forall|j: int| 0 <= j < k + 1 implies title_le(
                    v@[k as int],
                    #[trigger] v@[j],
                ) by {
                    if j < k {
                        lemma_lex_le_trans(v@[k as int].title@, v@[m as int].title@, v@[j].title@);
                    } else {
                        lemma_lex_le_refl(v@[k as int].title@);
                    }
                }
            }
            m = k;
        } else {
            proof {
                lemma_lex_le_total(v@[k as int].title@, v@[m as int].title@);
            }
        }
        k += 1;
    }
    m
}

/// The position of a row whose age is no smaller than every age in `v`.
fn max_age_index(v: &Vec<User>) -> (m: usize)
    requires
        v@.len() > 0,
    ensures
        m < v@.len(),
        forall|j: int| 0 <= j < v@.len() ==> age_desc_le(v@[m as int], #[trigger] v@[j]),
{
    let mut m: usize = 0;
    let mut k: usize = 1;
    while k < v.len()
        invariant
            m < k <= v@.len(),
            forall|j: int| 0 <= j < k ==> age_desc_le(v@[m as int], #[trigger] v@[j]),
        decreases v@.len() - k,
    {
        if v[k].age > v[m].age {
            m = k;
        }
        k += 1;
    }
    m
}

/// Orders posts by title, ascending: returns the same rows (as a multiset)
/// arranged so that every title precedes the titles after it.
pub fn sort_posts_by_title(input: Vec<Post>) -> (r: Vec<Post>)
    ensures
        r@.len() == input@.len(),
        r@.to_multiset() == input@.to_multiset(),
        posts_sorted_by_title(r@),
{
    let mut src = input;
    let mut out: Vec<Post> = Vec::new();
    proof {
        assert(out@.to_multiset().add(src@.to_multiset()) =~= input@.to_multiset());
    }
    while src.len() > 0
        invariant
            out@.to_multiset().add(src@.to_multiset()) == input@.to_multiset(),
            posts_sorted_by_title(out@),
            forall|i: int, j: int|
                0 <= i < out@.len() && 0 <= j < src@.len() ==> #[trigger] title_le(
                    out@[i],
                    src@[j],
                ),
        decreases src@.len(),
    {
        let m = min_title_index(&src);
        let ghost s0 = src@;
        let ghost out0 = out@;
        let x = src.remove(m);
        out.push(x);
        proof {
            s0.remove_ensures(m as int);
            assert(s0.contains(x)) by {
                assert(s0[m as int] == x);
            }
            assert(src@.to_multiset() =~= s0.to_multiset().remove(x));
            assert(out@.to_multiset() =~= out0.to_multiset().insert(x));
            assert(out@.to_multiset().add(src@.to_multiset()) =~= out0.to_multiset().add(
                s0.to_multiset(),
            ));
            assert forall|i: int, j: int| 0 <= i < j < out@.len() implies #[trigger] title_le(
                out@[i],
                out@[j],
            ) by {
                assert(out@[i] == out0[i]);
                if j < out0.len() {
                    assert(out@[j] == out0[j]);
                } else {
                    assert(out@[j] == x);
                    assert(title_le(out0[i], s0[m as int]));
                }
            }
            assert forall|i: int, j: int|
                0 <= i < out@.len() && 0 <= j < src@.len() implies #[trigger] title_le(
                out@[i],
                src@[j],
            ) by {
                if j < m {
                    assert(src@[j] == s0[j]);
                } else {
                    assert(src@[j] == s0[j + 1]);
                }
                if i < out0.len() {
                    assert(out@[i] == out0[i]);
                } else {
                    assert(out@[i] == x);
                }
            }
        }
    }
    proof {
        assert(src@.to_multiset().len() == 0);
        assert(out@.to_multiset() =~= input@.to_multiset());
        assert(out@.to_multiset().len() == out@.len());
        assert(input@.to_multiset().len() == input@.len());
    }
    out
}

/// Orders users by age, descending: returns the same rows (as a multiset)
/// arranged oldest first.
pub fn sort_users_by_age_desc(input: Vec<User>) -> (r: Vec<User>)
    ensures
        r@.len() == input@.len(),
        r@.to_multiset() == input@.to_multiset(),
        users_sorted_by_age_desc(r@),
{
    let mut src = input;
    let mut out: Vec<User> = Vec::new();
    proof {
        assert(out@.to_multiset().add(src@.to_multiset()) =~= input@.to_multiset());
    }
    while src.len() > 0
        invariant
            out@.to_multiset().add(src@.to_multiset()) == input@.to_multiset(),
            users_sorted_by_age_desc(out@),
            forall|i: int, j: int|
                0 <= i < out@.len() && 0 <= j < src@.len() ==> #[trigger] age_desc_le(
                    out@[i],
                    src@[j],
                ),
        decreases src@.len(),
    {
        let m = max_age_index(&src);
        let ghost s0 = src@;
        let ghost out0 = out@;
        let x = src.remove(m);
        out.push(x);
        proof {
            s0.remove_ensures(m as int);
            assert(s0.contains(x)) by {
                assert(s0[m as int] == x);
            }
            assert(src@.to_multiset() =~= s0.to_multiset().remove(x));
            assert(out@.to_multiset() =~= out0.to_multiset().insert(x));
            assert(out@.to_multiset().add(src@.to_multiset()) =~= out0.to_multiset().add(
                s0.to_multiset(),
            ));
            assert forall|i: int, j: int| 0 <= i < j < out@.len() implies #[trigger] age_desc_le(
                out@[i],
                out@[j],
            ) by {
                assert(out@[i] == out0[i]);
                if j < out0.len() {
                    assert(out@[j] == out0[j]);
                } else {
                    assert(out@[j] == x);
                    assert(age_desc_le(out0[i], s0[m as int]));
                }
            }
            assert forall|i: int, j: int|
                0 <= i < out@.len() && 0 <= j < src@.len() implies #[trigger] age_desc_le(
                out@[i],
                src@[j],
            ) by {
                if j < m {
                    assert(src@[j] == s0[j]);
                } else {
                    assert(src@[j] == s0[j + 1]);
                }
                if i < out0.len() {
                    assert(out@[i] == out0[i]);
                } else {
                    assert(out@[i] == x);
                }
            }
        }
    }
    proof {
        assert(src@.to_multiset().len() == 0);
        assert(out@.to_multiset() =~= input@.to_multiset());
        assert(out@.to_multiset().len() == out@.len());
        assert(input@.to_multiset().len() == input@.len());
    }
    out
}

/// The predicate a post must meet to belong to the given user.
pub open spec fn by_user(user_id: i32) -> spec_fn(Post) -> bool {
    |p: Post| p.user_id == user_id
}

/// Keeps exactly the posts whose `user_id` is the given one, in storage
/// order.
pub fn filter_posts_by_user(posts: &Vec<Post>, user_id: i32) -> (r: Vec<Post>)
    ensures
        r@ == posts@.filter(by_user(user_id)),
{
    let mut r: Vec<Post> = Vec::new();
    let mut i: usize = 0;
    proof {
        reveal_with_fuel(Seq::<_>::filter, 1);
        assert(posts@.subrange(0, 0).filter(by_user(user_id)) =~= Seq::<Post>::empty());
    }
    while i < posts.len()
        invariant
            i <= posts@.len(),
            r@ == posts@.subrange(0, i as int).filter(by_user(user_id)),
        decreases posts@.len() - i,
    {
        let ghost pre = posts@.subrange(0, i as int);
        if posts[i].user_id == user_id {
            r.push(posts[i].duplicate());
        }
        i += 1;
        proof {
            reveal_with_fuel(Seq::<_>::filter, 1);
            let cur = posts@.subrange(0, i as int);
            assert(cur.drop_last() =~= pre);
            assert(cur.last() == posts@[i - 1]);
        }
    }
    proof {
        assert(posts@.subrange(0, posts@.len() as int) =~= posts@);
    }
    r
}

/// The posts of one user, ordered by title: exactly the rows whose
/// `user_id` is the given one (as a multiset of the filtered table), each
/// carrying that `user_id`, arranged in the title order.
pub fn posts_by_user_sorted_by_title(posts: &Vec<Post>, user_id: i32) -> (r: Vec<Post>)
    ensures
        r@.len() == posts@.filter(by_user(user_id)).len(),
        r@.to_multiset() == posts@.filter(by_user(user_id)).to_multiset(),
        posts_sorted_by_title(r@),
        forall|i: int| 0 <= i < r@.len() ==> (#[trigger] r@[i]).user_id == user_id,
{
    let filtered = filter_posts_by_user(posts, user_id);
    let ghost fs = filtered@;
    let r = sort_posts_by_title(filtered);
    proof {
        assert forall|i: int| 0 <= i < r@.len() implies (#[trigger] r@[i]).user_id == user_id by {
            assert(r@.contains(r@[i]));
            assert(r@.to_multiset().count(r@[i]) > 0);
            assert(fs.contains(r@[i]));
            let k = choose|k: int| 0 <= k < fs.len() && fs[k] == r@[i];
            assert(by_user(user_id)(posts@.filter(by_user(user_id))[k]));
        }
    }
    r
}

/// The projection the user listing reports: each row's `(name, age)`, in
/// row order.
pub fn select_names_ages(users: &Vec<User>) -> (r: Vec<(String, i32)>)
    ensures
        r@.len() == users@.len(),
        forall|i: int| 0 <= i < users@.len() ==> #[trigger] r@[i] == (users@[i].name, users@[i].age),
{
    let mut r: Vec<(String, i32)> = Vec::new();
    let mut i: usize = 0;
    while i < users.len()
        invariant
            i <= users@.len(),
            r@.len() == i,
            forall|j: int| 0 <= j < i ==> #[trigger] r@[j] == (users@[j].name, users@[j].age),
        decreases users@.len() - i,
    {
        r.push((users[i].name.clone(), users[i].age));
        i += 1;
    }
    r
}

/// Each row's title, in row order.
pub fn select_titles(posts: &Vec<Post>) -> (r: Vec<String>)
    ensures
        r@.len() == posts@.len(),
        forall|i: int| 0 <= i < posts@.len() ==> #[trigger] r@[i] == posts@[i].title,
{
    let mut r: Vec<String> = Vec::new();
    let mut i: usize = 0;
    while i < posts.len()
        invariant
            i <= posts@.len(),
            r@.len() == i,
            forall|j: int| 0 <= j < i ==> #[trigger] r@[j] == posts@[j].title,
        decreases posts@.len() - i,
    {
        r.push(posts[i].title.clone());
        i += 1;
    }
    r
}

/// Each row's body, in row order.
pub fn select_bodies(posts: &Vec<Post>) -> (r: Vec<String>)
    ensures
        r@.len() == posts@.len(),
        forall|i: int| 0 <= i < posts@.len() ==> #[trigger] r@[i] == posts@[i].body,
{
    let mut r: Vec<String> = Vec::new();
    let mut i: usize = 0;
    while i < posts.len()
        invariant
            i <= posts@.len(),
            r@.len() == i,
            forall|j: int| 0 <= j < i ==> #[trigger] r@[j] == posts@[j].body,
        decreases posts@.len() - i,
    {
        r.push(posts[i].body.clone());
        i += 1;
    }
    r
}

/// Each row's `published` flag, in row order.
pub fn select_published(posts: &Vec<Post>) -> (r: Vec<bool>)
    ensures
        r@.len() == posts@.len(),
        forall|i: int| 0 <= i < posts@.len() ==> #[trigger] r@[i] == posts@[i].published,
{
    let mut r: Vec<bool> = Vec::new();
    let mut i: usize = 0;
    while i < posts.len()
        invariant
            i <= posts@.len(),
            r@.len() == i,
            forall|j: int| 0 <= j < i ==> #[trigger] r@[j] == posts@[j].published,
        decreases posts@.len() - i,
    {
        r.push(posts[i].published);
        i += 1;
    }
    r
}

} // verus!
