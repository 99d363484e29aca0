use blog_store::model::{NewPost, NewUser, Post, User};
use blog_store::query::{
    filter_posts_by_user, posts_by_user_sorted_by_title, select_bodies, select_names_ages,
    select_published, select_titles, sort_posts_by_title, sort_users_by_age_desc, str_le,
};
use blog_store::store::{db_all_posts, db_insert_post, db_insert_user, Store};

fn post(id: i32, title: &str, body: &str, published: bool, user_id: i32) -> Post {
    Post {
        id,
        title: title.to_string(),
        body: body.to_string(),
        published,
        user_id,
    }
}

fn user(id: i32, name: &str, age: i32) -> User {
    User { id, name: name.to_string(), age }
}

#[test]
fn str_le_orders_by_code_point() {
    assert!(str_le("", ""));
    assert!(str_le("", "a"));
    assert!(!str_le("a", ""));
    assert!(str_le("abc", "abc"));
    assert!(str_le("ab", "abc"));
    assert!(!str_le("abc", "ab"));
    assert!(str_le("ab", "b"));
    assert!(!str_le("b", "ab"));
    assert!(str_le("Health", "MERS"));
    assert!(str_le("MERS", "SARS"));
    assert!(!str_le("SARS", "MERS"));
    // Upper-case letters precede lower-case ones in code-point order.
    assert!(str_le("Z", "a"));
}

#[test]
fn sort_posts_by_title_orders_and_keeps_rows() {
    let v = vec![
        post(1, "SARS", "Today", false, 1),
        post(2, "MERS", "Yesterday", true, 1),
        post(3, "Health", "Tomorrow", false, 2),
    ];
    let sorted = sort_posts_by_title(v);
    assert_eq!(select_titles(&sorted), vec!["Health", "MERS", "SARS"]);
    assert_eq!(select_bodies(&sorted), vec!["Tomorrow", "Yesterday", "Today"]);
    assert_eq!(
        sorted.iter().map(|p| p.id).collect::<Vec<i32>>(),
        vec![3, 2, 1]
    );
}

#[test]
fn sort_posts_by_title_keeps_duplicate_titles() {
    let v = vec![
        post(1, "same", "first", false, 1),
        post(2, "other", "second", false, 1),
        post(3, "same", "third", false, 1),
    ];
    let sorted = sort_posts_by_title(v);
    assert_eq!(select_titles(&sorted), vec!["other", "same", "same"]);
    let bodies = select_bodies(&sorted);
    assert_eq!(bodies[0], "second");
    assert!(bodies.contains(&"first".to_string()));
    assert!(bodies.contains(&"third".to_string()));
}

#[test]
fn sort_posts_by_title_on_empty_input() {
    let sorted = sort_posts_by_title(Vec::new());
    assert!(sorted.is_empty());
}

#[test]
fn sort_users_by_age_desc_orders_and_keeps_rows() {
    let v = vec![
        user(1, "green", 10),
        user(2, "wood", 12),
        user(3, "stone", 11),
    ];
    let sorted = sort_users_by_age_desc(v);
    assert_eq!(
        select_names_ages(&sorted),
        vec![
            ("wood".to_string(), 12),
            ("stone".to_string(), 11),
            ("green".to_string(), 10)
        ]
    );
}

#[test]
fn sort_users_by_age_desc_keeps_ties() {
    let v = vec![user(1, "a", 7), user(2, "b", 9), user(3, "c", 7)];
    let sorted = sort_users_by_age_desc(v);
    let ages: Vec<i32> = sorted.iter().map(|u| u.age).collect();
    assert_eq!(ages, vec![9, 7, 7]);
    let names: Vec<String> = sorted.iter().map(|u| u.name.clone()).collect();
    assert_eq!(names[0], "b");
    assert!(names.contains(&"a".to_string()));
    assert!(names.contains(&"c".to_string()));
}

#[test]
fn filter_keeps_matching_posts_in_storage_order() {
    let v = vec![
        post(1, "d", "one", false, 5),
        post(2, "a", "two", false, 6),
        post(3, "c", "three", false, 5),
        post(4, "b", "four", false, 7),
    ];
    let mine = filter_posts_by_user(&v, 5);
    assert_eq!(select_bodies(&mine), vec!["one", "three"]);
    assert!(mine.iter().all(|p| p.user_id == 5));
    assert!(filter_posts_by_user(&v, 8).is_empty());
}

#[test]
fn posts_of_one_user_come_back_in_title_order() {
    let mut store = Store::new();
    let u1 = db_insert_user(&mut store, &NewUser { name: "green".to_string(), age: 10 });
    let u2 = db_insert_user(&mut store, &NewUser { name: "wood".to_string(), age: 12 });
    for (title, body, author) in [
        ("SARS", "Today", u1.id),
        ("MERS", "Yesterday", u1.id),
        ("Health", "Tomorrow", u2.id),
    ] {
        db_insert_post(
            &mut store,
            &NewPost {
                title: title.to_string(),
                body: body.to_string(),
                published: None,
                user_id: author,
            },
        )
        .unwrap();
    }
    let listed = db_all_posts(&store);
    let of_u1 = posts_by_user_sorted_by_title(&listed, u1.id);
    assert_eq!(select_titles(&of_u1), vec!["MERS", "SARS"]);
    assert_eq!(select_bodies(&of_u1), vec!["Yesterday", "Today"]);
    let of_u2 = posts_by_user_sorted_by_title(&listed, u2.id);
    assert_eq!(select_titles(&of_u2), vec!["Health"]);
    assert!(posts_by_user_sorted_by_title(&listed, u2.id + 1).is_empty());
}

#[test]
fn selections_project_each_row() {
    let v = vec![
        post(1, "t1", "b1", true, 4),
        post(2, "t2", "b2", false, 9),
    ];
    assert_eq!(select_titles(&v), vec!["t1", "t2"]);
    assert_eq!(select_bodies(&v), vec!["b1", "b2"]);
    assert_eq!(select_published(&v), vec![true, false]);
    let users = vec![user(1, "n1", 30), user(2, "n2", 40)];
    assert_eq!(
        select_names_ages(&users),
        vec![("n1".to_string(), 30), ("n2".to_string(), 40)]
    );
}
