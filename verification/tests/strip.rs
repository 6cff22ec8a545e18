use axum_wayfind::router::validate_nest_path;
use axum_wayfind::strip_prefix::{is_capture, segments, strip_prefix, StripPrefixLayer};

/// Splits a path-and-query string at its `?`, as an HTTP layer would, and
/// strips the prefix from the path part.
fn strip(path_and_query: &str, prefix: &str) -> Option<String> {
    match path_and_query.split_once('?') {
        Some((path, query)) => strip_prefix(path, Some(query), prefix),
        None => strip_prefix(path_and_query, None, prefix),
    }
}

#[test]
fn static_prefix() {
    assert_eq!(strip("/api/users", "/api"), Some("/users".to_owned()));
}

#[test]
fn static_prefix_with_trailing_slash() {
    assert_eq!(strip("/api/users", "/api/"), Some("/users".to_owned()));
}

#[test]
fn exact_prefix_match() {
    assert_eq!(strip("/api", "/api"), Some("/".to_owned()));
}

#[test]
fn no_match() {
    assert_eq!(strip("/other/users", "/api"), None);
}

#[test]
fn preserves_query_string() {
    assert_eq!(
        strip("/api/users?page=1", "/api"),
        Some("/users?page=1".to_owned())
    );
}

#[test]
fn dynamic_prefix_segment() {
    assert_eq!(strip("/v2/users", "/{version}"), Some("/users".to_owned()));
}

#[test]
fn prefix_longer_than_path() {
    assert_eq!(strip("/api", "/api/v2"), None);
}

#[test]
fn nested_prefix_of_two_segments() {
    assert_eq!(strip("/api/v1/resource", "/api/v1"), Some("/resource".to_owned()));
}

#[test]
fn segments_skip_the_leading_empty_one() {
    let chars: Vec<char> = "/a/b".chars().collect();
    let segs = segments(&chars);
    assert_eq!(segs.len(), 2);
    assert_eq!(segs[0], vec!['a']);
    assert_eq!(segs[1], vec!['b']);
}

#[test]
fn capture_segment_shapes() {
    let cap: Vec<char> = "{id}".chars().collect();
    let wild: Vec<char> = "{*path}".chars().collect();
    let escaped: Vec<char> = "{{lit}}".chars().collect();
    let plain: Vec<char> = "users".chars().collect();
    assert!(is_capture(&cap));
    assert!(!is_capture(&wild));
    assert!(!is_capture(&escaped));
    assert!(!is_capture(&plain));
}

#[test]
fn wildcard_prefix_segment_is_not_a_capture() {
    assert_eq!(strip("/v2/users", "/{*version}"), None);
}

#[test]
fn escaped_brace_prefix_segment_matches_only_itself() {
    assert_eq!(strip("/{{lit}}/x", "/{{lit}}"), Some("/x".to_owned()));
    assert_eq!(strip("/other/x", "/{{lit}}"), None);
}

#[test]
fn nest_path_shapes() {
    assert!(validate_nest_path("/api"));
    assert!(validate_nest_path("/api/v1"));
    assert!(!validate_nest_path(""));
    assert!(!validate_nest_path("/"));
    assert!(!validate_nest_path("api"));
    assert!(!validate_nest_path("/{*catch_all}"));
    assert!(validate_nest_path("/{version}"));
}

#[test]
fn strip_prefix_layer_remembers_its_prefix() {
    let layer = StripPrefixLayer::new("/api");
    assert_eq!(layer.prefix(), "/api");
}
