use axum_wayfind::syntax::{axum_to_wayfind, translate_template};

#[test]
fn static_path() {
    assert_eq!(axum_to_wayfind("/hello/world"), "/hello/world");
}

#[test]
fn single_param() {
    assert_eq!(axum_to_wayfind("/users/{id}"), "/users/<id>");
}

#[test]
fn multiple_params() {
    assert_eq!(
        axum_to_wayfind("/users/{user_id}/posts/{post_id}"),
        "/users/<user_id>/posts/<post_id>"
    );
}

#[test]
fn wildcard() {
    assert_eq!(axum_to_wayfind("/files/{*path}"), "/files/<*path>");
}

#[test]
fn root() {
    assert_eq!(axum_to_wayfind("/"), "/");
}

#[test]
fn no_params() {
    assert_eq!(axum_to_wayfind("/static/page"), "/static/page");
}

#[test]
fn unclosed_brace_is_malformed() {
    assert_eq!(translate_template("/users/{id"), None);
}

#[test]
fn unmatched_close_brace_is_malformed() {
    assert_eq!(translate_template("/users/id}"), None);
}

#[test]
fn capture_name_kept_verbatim() {
    assert_eq!(
        translate_template("/a/{some_long_name}/b").as_deref(),
        Some("/a/<some_long_name>/b")
    );
}

#[test]
fn empty_template_translates_to_itself() {
    assert_eq!(translate_template("").as_deref(), Some(""));
}
