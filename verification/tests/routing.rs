use axum::routing::{get, post};
use axum_core::extract::Request;
use axum_core::response::{IntoResponse, Response};
use axum_wayfind::endpoint::{BoxedLayer, BoxedService};
use axum_wayfind::extract::path::WayfindUrlParams;
use axum_wayfind::router::{Dispatch, RouterError};
use axum_wayfind::Router;
use std::convert::Infallible;

fn boxed_service() -> BoxedService {
    tower::util::BoxCloneSyncService::new(tower::util::service_fn(|_req: Request| {
        std::future::ready(Ok::<Response, Infallible>("from service".into_response()))
    }))
}

fn identity_layer() -> BoxedLayer {
    tower::util::BoxCloneSyncServiceLayer::new(tower::util::MapRequestLayer::new(
        |req: Request| req,
    ))
}


fn err_of<T>(r: Result<T, RouterError>) -> RouterError {
    match r {
        Ok(_) => panic!("expected a build error"),
        Err(e) => e,
    }
}

fn matched_template(app: &Router, path: &str) -> Option<String> {
    match app.dispatch(path) {
        Dispatch::Matched(m) => Some(m.matched_path.as_str().to_owned()),
        _ => None,
    }
}

#[test]
fn round_trip_register_and_dispatch() {
    let app: Router = Router::new()
        .route("/users/{id}", get(|| async { "user" }))
        .unwrap();
    match app.dispatch("/users/42") {
        Dispatch::Matched(m) => {
            assert_eq!(m.matched_path.as_str(), "/users/{id}");
            assert_eq!(m.index, 0);
            match m.params {
                WayfindUrlParams::Params(ps) => {
                    assert_eq!(ps.len(), 1);
                    assert_eq!(ps[0].0, "id");
                    assert_eq!(ps[0].1.as_str(), "42");
                }
                WayfindUrlParams::InvalidUtf8InPathParam { .. } => panic!("params decode"),
            }
        }
        _ => panic!("expected a match"),
    }
}

#[test]
fn dispatch_percent_decodes_captures() {
    let app: Router = Router::new().route("/{key}", get(|| async {})).unwrap();
    match app.dispatch("/hello%20world") {
        Dispatch::Matched(m) => match m.params {
            WayfindUrlParams::Params(ps) => {
                assert_eq!(ps[0].0, "key");
                assert_eq!(ps[0].1.as_str(), "hello world");
            }
            WayfindUrlParams::InvalidUtf8InPathParam { .. } => panic!("params decode"),
        },
        _ => panic!("expected a match"),
    }
}

#[test]
fn wildcard_capture_takes_the_tail() {
    let app: Router = Router::new()
        .route("/files/{*path}", get(|| async {}))
        .unwrap();
    match app.dispatch("/files/a/b/c.txt") {
        Dispatch::Matched(m) => match m.params {
            WayfindUrlParams::Params(ps) => {
                assert_eq!(ps[0].0, "path");
                assert_eq!(ps[0].1.as_str(), "a/b/c.txt");
            }
            WayfindUrlParams::InvalidUtf8InPathParam { .. } => panic!("params decode"),
        },
        _ => panic!("expected a match"),
    }
}

#[test]
fn engine_prefers_explicit_routes_over_wildcards() {
    // The nested-fallback design relies on the engine ranking static routes
    // above dynamic ones, and dynamic ones above wildcards.
    let app: Router = Router::new()
        .route("/files/{*rest}", get(|| async {}))
        .unwrap()
        .route("/files/special", get(|| async {}))
        .unwrap()
        .route("/color/{c}", get(|| async {}))
        .unwrap()
        .route("/color/red", get(|| async {}))
        .unwrap();
    assert_eq!(matched_template(&app, "/files/special").as_deref(), Some("/files/special"));
    assert_eq!(matched_template(&app, "/files/a/b").as_deref(), Some("/files/{*rest}"));
    assert_eq!(matched_template(&app, "/color/red").as_deref(), Some("/color/red"));
    assert_eq!(matched_template(&app, "/color/blue").as_deref(), Some("/color/{c}"));
}

#[test]
fn merge_of_disjoint_tables_matches_both_and_nothing_else() {
    let users: Router = Router::new().route("/users", get(|| async { "users" })).unwrap();
    let posts: Router = Router::new().route("/posts", get(|| async { "posts" })).unwrap();
    let app = users.merge(posts).unwrap();
    assert_eq!(app.route_count(), 2);
    assert_eq!(matched_template(&app, "/users").as_deref(), Some("/users"));
    assert_eq!(matched_template(&app, "/posts").as_deref(), Some("/posts"));
    assert!(matches!(app.dispatch("/other"), Dispatch::NotFound));
}

#[test]
fn duplicate_registration_keeps_one_endpoint() {
    let app: Router = Router::new()
        .route("/item", get(|| async { "get" }))
        .unwrap()
        .route("/item", post(|| async { "post" }))
        .unwrap();
    assert_eq!(app.route_count(), 1);
    assert_eq!(matched_template(&app, "/item").as_deref(), Some("/item"));
}

#[test]
fn merge_combines_method_tables_on_one_path() {
    let router_get: Router = Router::new().route("/item", get(|| async { "get" })).unwrap();
    let router_post: Router = Router::new().route("/item", post(|| async { "post" })).unwrap();
    let app = router_get.merge(router_post).unwrap();
    assert_eq!(app.route_count(), 1);
}

#[test]
fn merge_takes_the_incoming_custom_fallback() {
    let plain: Router = Router::new().route("/a", get(|| async {})).unwrap();
    let with_fb: Router = Router::new()
        .route("/b", get(|| async {}))
        .unwrap()
        .fallback(|| async { "teapot" });
    let app = plain.merge(with_fb).unwrap();
    assert!(matches!(app.dispatch("/nope"), Dispatch::Fallback(_)));
}

#[test]
fn merge_with_default_fallback_keeps_the_existing_one() {
    let with_fb: Router = Router::new()
        .route("/a", get(|| async {}))
        .unwrap()
        .fallback(|| async { "teapot" });
    let plain: Router = Router::new().route("/b", get(|| async {})).unwrap();
    let app = with_fb.merge(plain).unwrap();
    assert!(matches!(app.dispatch("/nope"), Dispatch::Fallback(_)));
}

#[test]
fn nest_prefixes_inner_routes() {
    let api: Router = Router::new()
        .route("/users", get(|| async { "users" }))
        .unwrap()
        .route("/posts", get(|| async { "posts" }))
        .unwrap();
    let app: Router = Router::new().nest("/api", api).unwrap();
    assert_eq!(matched_template(&app, "/api/users").as_deref(), Some("/api/users"));
    assert_eq!(matched_template(&app, "/api/posts").as_deref(), Some("/api/posts"));
    assert!(matches!(app.dispatch("/users"), Dispatch::NotFound));
}

#[test]
fn nest_keeps_capture_templates() {
    let api: Router = Router::new().route("/users/{id}", get(|| async {})).unwrap();
    let app: Router = Router::new().nest("/api", api).unwrap();
    assert_eq!(
        matched_template(&app, "/api/users/42").as_deref(),
        Some("/api/users/{id}")
    );
}

#[test]
fn nesting_an_inner_root_matches_the_bare_prefix_and_with_slash() {
    let api: Router = Router::new().route("/", get(|| async { "root" })).unwrap();
    let app: Router = Router::new().nest("/api", api).unwrap();
    assert!(matches!(app.dispatch("/api"), Dispatch::Matched(_)));
    assert!(matches!(app.dispatch("/api/"), Dispatch::Matched(_)));
}

#[test]
fn nested_fallback_catches_unknown_subpaths_only() {
    let api: Router = Router::new()
        .route("/known", get(|| async { "known" }))
        .unwrap()
        .fallback(|| async { "api fallback" });
    let app: Router = Router::new().nest("/api", api).unwrap();
    assert_eq!(matched_template(&app, "/api/known").as_deref(), Some("/api/known"));
    // An unknown sub-path reaches the inner fallback, registered as the
    // synthesized wildcard catch-all under the prefix.
    assert_eq!(
        matched_template(&app, "/api/unknown").as_deref(),
        Some("/api/{*__private_nest_tail}")
    );
    // The exact prefix is also served by the inner fallback.
    assert!(matches!(app.dispatch("/api"), Dispatch::Matched(_)));
    // Outside the prefix, the outer table's own (default) fallback answers.
    assert!(matches!(app.dispatch("/other"), Dispatch::NotFound));
}

#[test]
fn nest_at_root_is_a_build_error() {
    let err = err_of(Router::<()>::new().nest("/", Router::new()));
    assert!(matches!(err, RouterError::NestAtRoot));
}

#[test]
fn nest_under_empty_path_is_a_build_error() {
    let err = err_of(Router::<()>::new().nest("", Router::new()));
    assert!(matches!(err, RouterError::NestAtRoot));
}

#[test]
fn nest_under_wildcard_is_a_build_error() {
    let err = err_of(Router::<()>::new().nest("/{*catch_all}", Router::new()));
    assert!(matches!(err, RouterError::NestUnderWildcard { .. }));
}

#[test]
fn nest_service_registers_three_variants() {
    let app: Router = Router::new().nest_service("/api", boxed_service()).unwrap();
    assert!(app.has_route("/api"));
    assert!(app.has_route("/api/"));
    assert!(app.has_route("/api/{*__private_nest_tail}"));
    assert!(matches!(app.dispatch("/api/foo/bar"), Dispatch::Matched(_)));
    assert!(matches!(app.dispatch("/api"), Dispatch::Matched(_)));
    assert!(matches!(app.dispatch("/api/"), Dispatch::Matched(_)));
}

#[test]
fn route_service_serves_a_path() {
    let app: Router = Router::new().route_service("/svc", boxed_service()).unwrap();
    assert!(matches!(app.dispatch("/svc"), Dispatch::Matched(_)));
}

#[test]
fn default_fallback_is_not_found() {
    let app: Router = Router::new().route("/exists", get(|| async { "ok" })).unwrap();
    assert!(matches!(app.dispatch("/not-here"), Dispatch::NotFound));
}

#[test]
fn custom_fallback_handles_unmatched_paths() {
    let app: Router = Router::new()
        .route("/exists", get(|| async { "ok" }))
        .unwrap()
        .fallback(|| async { "teapot" });
    assert!(matches!(app.dispatch("/not-here"), Dispatch::Fallback(_)));
    assert!(matches!(app.dispatch("/exists"), Dispatch::Matched(_)));
}

#[test]
fn fallback_service_handles_unmatched_paths() {
    let app: Router = Router::new()
        .route("/exists", get(|| async { "ok" }))
        .unwrap()
        .fallback_service(boxed_service());
    assert!(matches!(app.dispatch("/not-here"), Dispatch::Fallback(_)));
}

#[test]
fn with_state_keeps_the_table() {
    let app: Router<String> = Router::new()
        .route(
            "/greet/{name}",
            get(|axum::extract::State(s): axum::extract::State<String>| async move { s }),
        )
        .unwrap();
    let ready: Router<()> = app.with_state("Hello".to_owned());
    assert_eq!(matched_template(&ready, "/greet/Alice").as_deref(), Some("/greet/{name}"));
}

#[test]
fn route_layer_leaves_the_fallback_alone() {
    let app: Router = Router::new()
        .route("/exists", get(|| async { "ok" }))
        .unwrap()
        .route_layer(&identity_layer());
    assert!(matches!(app.dispatch("/exists"), Dispatch::Matched(_)));
    assert!(matches!(app.dispatch("/not-here"), Dispatch::NotFound));
}

#[test]
fn layer_wraps_the_fallback_too() {
    let app: Router = Router::new()
        .route("/exists", get(|| async { "ok" }))
        .unwrap()
        .layer(&identity_layer());
    assert!(matches!(app.dispatch("/exists"), Dispatch::Matched(_)));
    // Wrapping made the default 404 concrete, so it now dispatches as a
    // custom fallback endpoint.
    assert!(matches!(app.dispatch("/not-here"), Dispatch::Fallback(_)));
}

#[test]
fn reserved_parameter_names_are_refused() {
    let err = err_of(Router::<()>::new()
        .route("/x/{__private_foo}", get(|| async {}))
        );
    assert!(matches!(err, RouterError::ReservedParameterName { .. }));
}

#[test]
fn malformed_template_is_refused() {
    let err = err_of(Router::<()>::new().route("/x/{open", get(|| async {})));
    assert!(matches!(err, RouterError::MalformedTemplate { .. }));
}

#[test]
fn unrooted_path_is_refused() {
    let err = err_of(Router::<()>::new().route("nope", get(|| async {})));
    assert!(matches!(err, RouterError::InvalidPath { .. }));
}

#[test]
fn conflicting_templates_are_refused() {
    // Both templates reach the engine as the same pattern: the second
    // registration is a structural conflict.
    let err = err_of(Router::<()>::new()
        .route("/a/{x}", get(|| async {}))
        .unwrap()
        .route("/a/<x>", get(|| async {}))
        );
    assert!(matches!(err, RouterError::Conflict { .. }));
}

#[test]
fn templates_are_listed_in_registration_order() {
    let app: Router = Router::new()
        .route("/a", get(|| async {}))
        .unwrap()
        .route("/b", get(|| async {}))
        .unwrap();
    assert_eq!(app.templates(), &vec!["/a".to_owned(), "/b".to_owned()]);
    assert!(app.has_route("/a"));
    assert!(!app.has_route("/c"));
}

#[test]
fn make_service_wraps_the_table() {
    let app: Router = Router::new().route("/a", get(|| async {})).unwrap();
    let make = app.into_make_service();
    let app = make.into_inner();
    assert!(app.has_route("/a"));
}

#[test]
fn default_table_is_empty() {
    let app: Router = Router::default();
    assert_eq!(app.route_count(), 0);
    assert!(matches!(app.dispatch("/"), Dispatch::NotFound));
}
