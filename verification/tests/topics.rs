use robotica_backend::topics::{topic_matches, topic_matches_any};

#[test]
fn topics_doc_examples_match() {
    assert!(topic_matches("foo/bar", "foo/bar"));
    assert!(topic_matches("foo", "foo/+"));
    assert!(topic_matches("foo/", "foo/+"));
    assert!(topic_matches("foo/bar", "foo/+"));
    assert!(topic_matches("foo", "foo/#"));
    assert!(topic_matches("foo/", "foo/#"));
    assert!(topic_matches("foo/bar", "foo/#"));
    assert!(topic_matches("foo/bar/baz", "foo/#"));
    assert!(topic_matches("foo/or/bar", "foo/+/bar"));
}

#[test]
fn topics_doc_examples_do_not_match() {
    assert!(!topic_matches("foo/bar", "foo"));
    assert!(!topic_matches("foo/bar", "foo/bar/baz"));
    assert!(!topic_matches("foo/bar", "foo/baz"));
    assert!(!topic_matches("foo/bar", "foo/baz/#"));
    assert!(!topic_matches("foo/bar", "foo/+/bar"));
    assert!(!topic_matches("foo/or", "foo/+/bar"));
    assert!(!topic_matches("foo/or/else", "foo/+/bar"));
}

#[test]
fn topics_doc_examples_any() {
    let patterns = vec!["foo/bar".to_string(), "foo/baz".to_string()];
    assert!(topic_matches_any("foo/bar", &patterns));
    assert!(topic_matches_any("foo/baz", &patterns));
    assert!(!topic_matches_any("foo", &patterns));
    assert!(!topic_matches_any("foo/bar/baz", &patterns));
    assert!(!topic_matches_any("foo/bar", &Vec::new()));
}

#[test]
fn topics_laws_on_values() {
    assert!(topic_matches("a/b/c", "a/b/c"));
    assert!(topic_matches("anything/at/all", "#"));
    assert!(topic_matches("", "#"));
    assert!(!topic_matches("a/b", "a/c"));
}
