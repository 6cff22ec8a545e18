//! A request-routing library: path templates with named (`{name}`) and
//! wildcard (`{*name}`) captures are registered against endpoints, composed
//! by merging and nesting, and matched against request paths with
//! percent-decoded parameter extraction.
//!
//! The route table and its composition rules, the dispatch decision, the
//! template syntax translation, the prefix stripping that nesting relies on,
//! and the typed parameter extraction are all verified. The path-matching
//! engine (wayfind) and the per-path endpoint objects (axum's method
//! routers) are outside collaborators, used through declared, trusted
//! contracts.

mod text;
pub mod endpoint;
pub mod engine;
pub mod extract;
pub mod router;
pub mod strip_prefix;
pub mod syntax;

pub use router::{IntoMakeService, Router};
