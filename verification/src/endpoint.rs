//! Endpoints, behind trusted contracts.
//!
//! An endpoint is an opaque per-path dispatch object (axum's `MethodRouter`):
//! it selects among HTTP methods and invokes application logic. The routing
//! table stores endpoints, merges two registered under the same template,
//! wraps them in middleware, and hands out cheap clones at dispatch time —
//! all through the operations declared here. Raw services and middleware
//! enter in their type-erased forms (tower's boxed clone-able service and
//! layer), so that callers box once at the edge. What an endpoint does with
//! a request is outside this crate's contracts.

use vstd::prelude::*;
use axum::routing::MethodRouter;
use axum::routing::Route;
use axum_core::extract::Request;
use axum_core::response::Response;
use std::convert::Infallible;
use tower::util::BoxCloneSyncService;
use tower::util::BoxCloneSyncServiceLayer;

verus! {

#[verifier::external_type_specification]
#[verifier::external_body]
#[verifier::reject_recursive_types(S)]
#[verifier::reject_recursive_types(E)]
pub struct ExMethodRouter<S, E>(MethodRouter<S, E>);

#[verifier::external_type_specification]
#[verifier::external_body]
#[verifier::reject_recursive_types(T)]
pub struct ExHttpRequest<T>(http::Request<T>);

#[verifier::external_type_specification]
#[verifier::external_body]
#[verifier::reject_recursive_types(T)]
pub struct ExHttpResponse<T>(http::Response<T>);

#[verifier::external_type_specification]
#[verifier::external_body]
pub struct ExBody(axum_core::body::Body);

#[verifier::external_type_specification]
#[verifier::external_body]
#[verifier::reject_recursive_types(E)]
pub struct ExRoute<E>(Route<E>);

#[verifier::external_type_specification]
#[verifier::external_body]
#[verifier::reject_recursive_types(T)]
#[verifier::reject_recursive_types(U)]
#[verifier::reject_recursive_types(E)]
pub struct ExBoxCloneSyncService<T, U, E>(BoxCloneSyncService<T, U, E>);

#[verifier::external_type_specification]
#[verifier::external_body]
#[verifier::reject_recursive_types(In)]
#[verifier::reject_recursive_types(T)]
#[verifier::reject_recursive_types(U)]
#[verifier::reject_recursive_types(E)]
pub struct ExBoxCloneSyncServiceLayer<In, T, U, E>(BoxCloneSyncServiceLayer<In, T, U, E>);

/// A type-erased request-handling service, as the routing table accepts it.
pub type BoxedService = BoxCloneSyncService<Request, Response, Infallible>;

/// A type-erased middleware layer, as the routing table accepts it.
pub type BoxedLayer = BoxCloneSyncServiceLayer<Route, Request, Response, Infallible>;

/// Relies on axum's `MethodRouter::merge`: the result serves the union of
/// the two endpoints' method handlers. When both define a handler for the
/// same method, or both carry a fallback, axum aborts route construction
/// (it panics), as the original builder API documents.
#[verifier::external_body]
pub(crate) fn endpoint_merge<S>(a: MethodRouter<S>, b: MethodRouter<S>) -> MethodRouter<S> where
    S: Clone + Send + Sync + 'static,
 {
    a.merge(b)
}

/// Relies on axum's `MethodRouter::clone`: endpoints are cheap handles,
/// duplicated for each dispatch so that in-flight requests never contend on
/// the table.
#[verifier::external_body]
pub(crate) fn endpoint_clone<S>(e: &MethodRouter<S>) -> MethodRouter<S> {
    e.clone()
}

/// Relies on http's `Uri` and `Request` types: when the prefix matches, the
/// request's URI path is replaced by its stripped form (scheme, authority
/// and query kept); when it does not match, the request passes unchanged.
/// The path arithmetic itself is [`crate::strip_prefix::strip_prefix`],
/// which is verified.
#[verifier::external_body]
fn strip_request_prefix<B>(req: http::Request<B>, prefix: &str) -> http::Request<B> {
    let (mut parts, body) = req.into_parts();
    let stripped = crate::strip_prefix::strip_prefix(parts.uri.path(), parts.uri.query(), prefix);
    if let Some(new_path_and_query) = stripped {
        let mut uri_parts = http::uri::Parts::default();
        uri_parts.scheme = parts.uri.scheme().cloned();
        uri_parts.authority = parts.uri.authority().cloned();
        uri_parts.path_and_query = Some(
            new_path_and_query.parse().expect("a stripped path is a valid path"),
        );
        parts.uri = http::Uri::from_parts(uri_parts).expect("a stripped URI is a valid URI");
    }
    http::Request::from_parts(parts, body)
}

/// Relies on axum's `MethodRouter::layer` and tower's `MapRequestLayer`:
/// every request reaching the endpoint first has `prefix` stripped from its
/// URI by [`strip_request_prefix`].
#[verifier::external_body]
pub(crate) fn endpoint_strip_prefix<S>(e: MethodRouter<S>, prefix: &str) -> MethodRouter<S> where
    S: Clone + Send + Sync + 'static,
 {
    let prefix: std::sync::Arc<str> = std::sync::Arc::from(prefix);
    e.layer(
        tower::util::MapRequestLayer::new(move |req: Request| strip_request_prefix(req, &prefix)),
    )
}

/// Relies on axum's `MethodRouter::with_state`: supplies the state value,
/// turning the endpoint into its dispatch-ready, state-free form.
#[verifier::external_body]
pub(crate) fn endpoint_with_state<S>(e: MethodRouter<S>, state: S) -> MethodRouter<()> where
    S: Clone + Send + Sync + 'static,
 {
    e.with_state(state)
}

/// Relies on axum's `any_service`: wraps a raw service as an endpoint that
/// hands it every HTTP method.
#[verifier::external_body]
pub(crate) fn endpoint_from_service<S>(svc: BoxedService) -> MethodRouter<S> where S: Clone {
    axum::routing::any_service(svc)
}

/// Relies on axum's `any`: wraps a handler as an endpoint that invokes it
/// for every HTTP method.
#[verifier::external_body]
pub(crate) fn endpoint_from_handler<H, T, S>(handler: H) -> MethodRouter<S> where
    H: axum::handler::Handler<T, S>,
    T: 'static,
    S: Clone + Send + Sync + 'static,
 {
    axum::routing::any(handler)
}

/// Relies on axum's `any_service` and tower's `service_fn`: an endpoint that
/// answers every request with a bare 404 Not Found — the default fallback,
/// made concrete so that middleware has something to wrap.
#[verifier::external_body]
pub(crate) fn endpoint_not_found<S>() -> MethodRouter<S> where S: Clone + Send + Sync + 'static {
    axum::routing::any_service(
        tower::util::service_fn(
            |_req: Request|
                std::future::ready(
                    Ok::<
                        _,
                        Infallible,
                    >(axum_core::response::IntoResponse::into_response(http::StatusCode::NOT_FOUND)),
                ),
        ),
    )
}

/// Relies on `Clone` for the state type: the state value is duplicated so
/// that every endpoint receives its own copy.
#[verifier::external_body]
pub(crate) fn clone_state<S: Clone>(s: &S) -> S {
    s.clone()
}

/// Relies on axum's `MethodRouter::layer`: wraps every method handler and
/// the endpoint's own fallback in the given middleware.
#[verifier::external_body]
pub(crate) fn endpoint_layer<S>(e: MethodRouter<S>, layer: &BoxedLayer) -> MethodRouter<S> where
    S: Clone + Send + Sync + 'static,
 {
    e.layer(layer.clone())
}

/// Relies on axum's `MethodRouter::route_layer`: wraps every method handler
/// in the given middleware, leaving the endpoint's own fallback alone; axum
/// aborts (panics) when the endpoint has no method handlers at all.
#[verifier::external_body]
pub(crate) fn endpoint_route_layer<S>(e: MethodRouter<S>, layer: &BoxedLayer) -> MethodRouter<
    S,
> where S: Clone + Send + Sync + 'static {
    e.route_layer(layer.clone())
}

} // verus!
