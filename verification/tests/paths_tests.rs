use imgproxy::paths::{derived_rel_of, join_under, normalize_path, origin_url, path_is_safe};

#[test]
fn strips_one_leading_and_trailing_slash() {
    assert_eq!(normalize_path("/users/1/avatar.jpg"), "users/1/avatar.jpg");
    assert_eq!(normalize_path("users/1/avatar.jpg/"), "users/1/avatar.jpg");
    assert_eq!(normalize_path("/users/1/avatar.jpg/"), "users/1/avatar.jpg");
    assert_eq!(normalize_path("avatar.png"), "avatar.png");
}

#[test]
fn strips_only_one_slash_per_side() {
    assert_eq!(normalize_path("//a//"), "/a/");
    assert_eq!(normalize_path("/"), "");
    assert_eq!(normalize_path(""), "");
}

#[test]
fn accepts_ordinary_paths() {
    assert!(path_is_safe("avatar.png"));
    assert!(path_is_safe("users/1/avatar.jpg"));
    assert!(path_is_safe("a..b/c.d"));
    assert!(path_is_safe("..."));
}

#[test]
fn rejects_traversal_and_degenerate_paths() {
    assert!(!path_is_safe(""));
    assert!(!path_is_safe("/a"));
    assert!(!path_is_safe("a/"));
    assert!(!path_is_safe("a//b"));
    assert!(!path_is_safe(".."));
    assert!(!path_is_safe("../a"));
    assert!(!path_is_safe("a/.."));
    assert!(!path_is_safe("a/../b"));
}

#[test]
fn joins_locations() {
    assert_eq!(join_under("data", "avatar.png"), "data/avatar.png");
    assert_eq!(derived_rel_of("200x100", "avatar.png"), "200x100/avatar.png");
    assert_eq!(
        join_under("data", &derived_rel_of("200x100", "a/b.png")),
        "data/200x100/a/b.png"
    );
}

#[test]
fn builds_origin_url() {
    assert_eq!(
        origin_url("users/1/avatar.jpg"),
        "https://cdn.intra.42.fr/users/1/avatar.jpg"
    );
}
