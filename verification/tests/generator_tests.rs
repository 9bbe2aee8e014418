use weiback_rs::generator::{HTMLPosts, Picture};

fn pic(name: &str, blob: &[u8]) -> Picture {
    Picture { name: name.to_string(), blob: blob.to_vec() }
}

fn blob_of(posts: &HTMLPosts, name: &str) -> Option<Vec<u8>> {
    posts.pictures().iter().find(|p| p.name == name).map(|p| p.blob.clone())
}

#[test]
fn new_posts_are_empty() {
    let posts = HTMLPosts::new();
    assert_eq!(posts.html(), "");
    assert!(posts.pictures().is_empty());
    let posts = HTMLPosts::default();
    assert_eq!(posts.html(), "");
}

#[test]
fn insert_keeps_the_first_picture_of_a_name() {
    let mut posts = HTMLPosts::new();
    assert!(posts.insert(pic("a.jpg", &[1])));
    assert!(!posts.insert(pic("a.jpg", &[2])));
    assert!(posts.insert(pic("b.jpg", &[3])));
    assert_eq!(posts.pictures().len(), 2);
    assert_eq!(blob_of(&posts, "a.jpg"), Some(vec![1]));
}

#[test]
fn merge_appends_html_and_unites_pictures() {
    let mut left = HTMLPosts::new();
    left.push_html("<p>one</p>");
    left.insert(pic("a.jpg", &[1]));
    left.insert(pic("b.jpg", &[2]));
    let mut right = HTMLPosts::new();
    right.push_html("<p>two</p>");
    right.insert(pic("b.jpg", &[9]));
    right.insert(pic("c.jpg", &[3]));
    left.merge(right);
    assert_eq!(left.html(), "<p>one</p><p>two</p>");
    assert_eq!(left.pictures().len(), 3);
    assert_eq!(blob_of(&left, "a.jpg"), Some(vec![1]));
    assert_eq!(blob_of(&left, "b.jpg"), Some(vec![2]));
    assert_eq!(blob_of(&left, "c.jpg"), Some(vec![3]));
}

#[test]
fn merge_with_empty_changes_nothing() {
    let mut left = HTMLPosts::new();
    left.push_html("x");
    left.insert(pic("a.jpg", &[1]));
    left.merge(HTMLPosts::new());
    assert_eq!(left.html(), "x");
    assert_eq!(left.pictures().len(), 1);
}
