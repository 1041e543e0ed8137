use blog::Blog;
use blog::BlogError;
use blog::post::Post;
use blog::str_contains;

fn sample_blog() -> Blog {
    let mut b = Blog { posts: Vec::new() };
    b.create_post(
        String::from("First"),
        String::from("Alice"),
        String::from("alpha"),
        Some(vec![String::from("news"), String::from("notes")]),
    );
    b.create_post(
        String::from("Second"),
        String::from("Bob"),
        String::from("beta"),
        None,
    );
    b
}

#[test]
fn create_post_returns_index() {
    let mut b = Blog { posts: Vec::new() };
    let first = b.create_post(
        String::from("First"),
        String::from("Alice"),
        String::from("alpha"),
        None,
    );
    let second = b.create_post(
        String::from("Second"),
        String::from("Bob"),
        String::from("beta"),
        None,
    );
    assert_eq!(0, first);
    assert_eq!(1, second);
    assert_eq!("First", b.read_post(first).unwrap().title);
    assert_eq!("Second", b.read_post(second).unwrap().title);
}

#[test]
fn create_post_round_trip_fields() {
    let mut b = Blog { posts: Vec::new() };
    let idx = b.create_post(
        String::from("Title"),
        String::from("Author"),
        String::from("Body"),
        Some(vec![String::from("l1")]),
    );
    let p = b.read_post(idx).unwrap();
    assert_eq!("Title", p.title);
    assert_eq!("Author", p.author);
    assert_eq!("Body", p.body);
    assert_eq!(vec![String::from("l1")], p.labels);
    assert_eq!(0, p.comments.len());
}

#[test]
fn create_post_labels_default_empty() {
    let mut b = Blog { posts: Vec::new() };
    let idx = b.create_post(
        String::from("Title"),
        String::from("Author"),
        String::from("Body"),
        None,
    );
    assert!(b.read_post(idx).unwrap().labels.is_empty());
}

#[test]
fn create_comment_returns_index() {
    let mut b = sample_blog();
    let first = b
        .create_comment(0, String::from("Carol"), String::from("one"))
        .unwrap();
    let second = b
        .create_comment(0, String::from("Dave"), String::from("two"))
        .unwrap();
    assert_eq!(0, first);
    assert_eq!(1, second);
    assert_eq!("one", b.posts[0].comments[0].body);
    assert_eq!("two", b.posts[0].comments[1].body);
}

#[test]
fn read_post_out_of_range() {
    let b = sample_blog();
    assert_eq!(BlogError::OutOfRange, b.read_post(2).unwrap_err());
}

#[test]
fn get_post_out_of_range() {
    let mut b = sample_blog();
    assert_eq!(BlogError::OutOfRange, b.get_post(2).unwrap_err());
}

#[test]
fn update_post_out_of_range_leaves_blog_unchanged() {
    let mut b = sample_blog();
    let r = b.update_post(2, Some(String::from("X")), None, None);
    assert_eq!(BlogError::OutOfRange, r.unwrap_err());
    assert_eq!(2, b.posts.len());
    assert_eq!("First", b.posts[0].title);
    assert_eq!("Second", b.posts[1].title);
}

#[test]
fn delete_post_out_of_range_leaves_blog_unchanged() {
    let mut b = sample_blog();
    assert_eq!(BlogError::OutOfRange, b.delete_post(2).unwrap_err());
    assert_eq!(2, b.posts.len());
}

#[test]
fn create_comment_out_of_range() {
    let mut b = sample_blog();
    let r = b.create_comment(2, String::from("Carol"), String::from("hi"));
    assert_eq!(BlogError::OutOfRange, r.unwrap_err());
    assert_eq!(0, b.posts[0].comments.len());
    assert_eq!(0, b.posts[1].comments.len());
}

#[test]
fn update_comment_out_of_range_post_index() {
    let mut b = sample_blog();
    let r = b.update_comment(2, 0, String::from("new"));
    assert_eq!(BlogError::OutOfRange, r.unwrap_err());
}

#[test]
fn update_comment_out_of_range_comment_index() {
    let mut b = sample_blog();
    b.create_comment(0, String::from("Carol"), String::from("hi"))
        .unwrap();
    let r = b.update_comment(0, 1, String::from("new"));
    assert_eq!(BlogError::OutOfRange, r.unwrap_err());
    assert_eq!("hi", b.posts[0].comments[0].body);
}

#[test]
fn post_comment_operations_out_of_range() {
    let mut p = Post {
        title: String::from("T"),
        author: String::from("A"),
        body: String::from("B"),
        labels: Vec::new(),
        comments: Vec::new(),
    };
    assert_eq!(BlogError::OutOfRange, p.read_comment(0).unwrap_err());
    assert_eq!(BlogError::OutOfRange, p.update_comment(0, "x").unwrap_err());
    assert_eq!(BlogError::OutOfRange, p.delete_comment(0).unwrap_err());
    assert_eq!(0, p.comments.len());
}

#[test]
fn get_post_gives_mutable_access() {
    let mut b = sample_blog();
    b.get_post(1).unwrap().title = String::from("Renamed");
    assert_eq!("Renamed", b.read_post(1).unwrap().title);
    assert_eq!("First", b.read_post(0).unwrap().title);
}

#[test]
fn update_post_absent_fields_keep_values() {
    let mut b = sample_blog();
    b.update_post(0, None, Some(String::from("new body")), None)
        .unwrap();
    assert_eq!("First", b.posts[0].title);
    assert_eq!("new body", b.posts[0].body);
    assert_eq!(
        vec![String::from("news"), String::from("notes")],
        b.posts[0].labels
    );
    b.update_post(0, Some(String::from("Renamed")), None, None)
        .unwrap();
    assert_eq!("Renamed", b.posts[0].title);
    assert_eq!("new body", b.posts[0].body);
}

#[test]
fn delete_post_shifts_later_indices() {
    let mut b = sample_blog();
    b.create_post(
        String::from("Third"),
        String::from("Carol"),
        String::from("gamma"),
        None,
    );
    let removed = b.delete_post(0).unwrap();
    assert_eq!("First", removed.title);
    assert_eq!(2, b.posts.len());
    assert_eq!("Second", b.read_post(0).unwrap().title);
    assert_eq!("Third", b.read_post(1).unwrap().title);
}

#[test]
fn delete_comment_shifts_later_indices() {
    let mut p = Post {
        title: String::from("T"),
        author: String::from("A"),
        body: String::from("B"),
        labels: Vec::new(),
        comments: Vec::new(),
    };
    p.create_comment("Carol", "one");
    p.create_comment("Dave", "two");
    p.create_comment("Erin", "three");
    let removed = p.delete_comment(1).unwrap();
    assert_eq!("two", removed.body);
    assert_eq!("one", p.read_comment(0).unwrap().body);
    assert_eq!("three", p.read_comment(1).unwrap().body);
}

#[test]
fn update_comment_keeps_author() {
    let mut b = sample_blog();
    b.create_comment(0, String::from("Carol"), String::from("old"))
        .unwrap();
    b.update_comment(0, 0, String::from("new")).unwrap();
    assert_eq!("Carol", b.posts[0].comments[0].author);
    assert_eq!("new", b.posts[0].comments[0].body);
}

#[test]
fn empty_needle_matches_everything() {
    let mut b = sample_blog();
    b.create_comment(1, String::from("Carol"), String::from("hi"))
        .unwrap();
    assert_eq!(vec![0, 1], b.search_by_title(""));
    let (posts, comments) = b.search_by_author("");
    assert_eq!(vec![0, 1], posts);
    assert_eq!(vec![(1, 0)], comments);
}

#[test]
fn search_on_empty_blog_finds_nothing() {
    let b = Blog { posts: Vec::new() };
    assert!(b.search_by_title("a").is_empty());
    assert!(b.search_by_label("a").is_empty());
    let (posts, comments) = b.search_by_body("a");
    assert!(posts.is_empty());
    assert!(comments.is_empty());
}

#[test]
fn search_is_case_sensitive() {
    let b = sample_blog();
    assert_eq!(vec![0], b.search_by_title("First"));
    assert!(b.search_by_title("first").is_empty());
}

#[test]
fn label_search_repeats_index_per_matching_label() {
    let mut b = Blog { posts: Vec::new() };
    b.create_post(
        String::from("T"),
        String::from("A"),
        String::from("B"),
        Some(vec![String::from("rust"), String::from("trust")]),
    );
    // both labels contain the needle, so the one post appears twice
    assert_eq!(vec![0, 0], b.search_by_label("rust"));
    assert_eq!(vec![0], b.search_by_label("trust"));
}

#[test]
fn comment_matches_come_in_scan_order() {
    let mut b = sample_blog();
    b.create_comment(0, String::from("Carol"), String::from("x one"))
        .unwrap();
    b.create_comment(0, String::from("Dave"), String::from("nothing"))
        .unwrap();
    b.create_comment(0, String::from("Erin"), String::from("x two"))
        .unwrap();
    b.create_comment(1, String::from("Frank"), String::from("x three"))
        .unwrap();
    let (posts, comments) = b.search_by_body("x");
    assert!(posts.is_empty());
    assert_eq!(vec![(0, 0), (0, 2), (1, 0)], comments);
}

#[test]
fn str_contains_exact_values() {
    assert!(str_contains("hello world", "o w"));
    assert!(str_contains("hello world", "hello"));
    assert!(str_contains("hello world", "world"));
    assert!(str_contains("hello world", ""));
    assert!(str_contains("", ""));
    assert!(!str_contains("", "a"));
    assert!(!str_contains("abc", "abd"));
    assert!(!str_contains("abc", "abcd"));
    assert!(!str_contains("Hello", "hello"));
}
