use task_store::access::{origin_allowed, starts_with};

#[test]
fn local_origins_are_allowed() {
    assert!(origin_allowed(b"http://localhost"));
    assert!(origin_allowed(b"http://localhost:3000"));
    assert!(origin_allowed(b"http://localhost.example.com"));
}

#[test]
fn null_origin_is_allowed() {
    assert!(origin_allowed(b"null"));
}

#[test]
fn other_origins_are_refused() {
    assert!(!origin_allowed(b"https://localhost"));
    assert!(!origin_allowed(b"http://example.com"));
    assert!(!origin_allowed(b"http://localhos"));
    assert!(!origin_allowed(b"nul"));
    assert!(!origin_allowed(b"nulls"));
    assert!(!origin_allowed(b"NULL"));
    assert!(!origin_allowed(b""));
}

#[test]
fn prefix_check() {
    assert!(starts_with(b"abc", b""));
    assert!(starts_with(b"abc", b"ab"));
    assert!(starts_with(b"abc", b"abc"));
    assert!(!starts_with(b"abc", b"abcd"));
    assert!(!starts_with(b"abc", b"b"));
    assert!(!starts_with(b"", b"a"));
}
