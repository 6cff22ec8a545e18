//! The path-matching engine, behind trusted contracts.
//!
//! The engine (wayfind) is a black box to this crate: it owns the trie that
//! maps inserted templates to route ids and answers path queries. Everything
//! this crate relies on is stated over three names: [`engine_map`], the
//! abstract contents of a builder (which template text is registered under
//! which id); [`engine_accepts`], whether an insertion would succeed; and
//! [`engine_found`], what a search yields. The engine is deterministic plain
//! data, so the latter two are functions of the builder's value and the
//! argument — which template the engine picks for a given path, and when an
//! insertion conflicts, remain its own affair, but the routing table's
//! contracts are exact over these names: registration succeeds exactly when
//! the engine accepts, and dispatch answers exactly what a search finds.

use vstd::prelude::*;
use wayfind::RouterBuilder;
use crate::extract::path::raw_pair_views;

verus! {

#[verifier::external_type_specification]
#[verifier::external_body]
#[verifier::reject_recursive_types(T)]
pub struct ExRouterBuilder<T>(wayfind::RouterBuilder<T>);

/// What a builder holds: a map from inserted template text to the id
/// registered under it.
pub uninterp spec fn engine_map(b: RouterBuilder<usize>) -> Map<Seq<char>, usize>;

/// The contents of a builder with nothing inserted.
pub open spec fn empty_engine_map() -> Map<Seq<char>, usize> {
    Map::empty()
}

/// Whether the engine accepts inserting this template text into this
/// builder: the text parses as a template and does not conflict with one
/// already inserted. The engine is plain data (vectors and ordered maps, no
/// hashing or ambient state), so acceptance is a function of the builder's
/// value and the text alone.
pub uninterp spec fn engine_accepts(b: RouterBuilder<usize>, template: Seq<char>) -> bool;

/// What a search over the built form of a builder yields for a request
/// path: the id stored under the template the engine picks, together with
/// the raw `(name, value)` capture pairs in capture order, or nothing when
/// no template matches. As with [`engine_accepts`], the result is a function
/// of the builder's value and the path alone.
pub uninterp spec fn engine_found(b: RouterBuilder<usize>, path: Seq<char>) -> Option<
    (usize, Seq<(Seq<char>, Seq<char>)>),
>;

/// Relies on wayfind's `RouterBuilder::new`: a builder with no templates.
#[verifier::external_body]
pub(crate) fn engine_new() -> (r: RouterBuilder<usize>)
    ensures
        engine_map(r) == empty_engine_map(),
{
    RouterBuilder::new()
}

/// Relies on wayfind's `RouterBuilder::insert`: it succeeds exactly when
/// the engine accepts the template, and then records it under the given id;
/// on a template syntax error or a conflict with an already-inserted
/// template, nothing changes and the error is reported as its text. An
/// identical template always conflicts with its earlier insertion, so
/// success also means the template text was new.
#[verifier::external_body]
pub(crate) fn engine_insert(b: &mut RouterBuilder<usize>, template: &str, id: usize) -> (r: Result<
    (),
    String,
>)
    ensures
        r is Ok <==> engine_accepts(*old(b), template@),
        r is Ok ==> engine_map(*final(b)) == engine_map(*old(b)).insert(template@, id),
        r is Ok ==> !engine_map(*old(b)).dom().contains(template@),
        r is Err ==> engine_map(*final(b)) == engine_map(*old(b)),
{
    b.insert(template, id).map_err(|e| e.to_string())
}

/// Relies on wayfind's `RouterBuilder::build` and `Router::search`: a search
/// yields exactly what [`engine_found`] names — the id of some inserted
/// template and the raw (undecoded) `(name, value)` capture pairs of the
/// match in capture order — or nothing when no template matches. Cloning
/// and building do not change what the builder holds.
#[verifier::external_body]
pub(crate) fn engine_search(b: &RouterBuilder<usize>, path: &str) -> (r: Option<
    (usize, Vec<(String, String)>),
>)
    ensures
        r matches Some(m) ==> engine_found(*b, path@) == Some((m.0, raw_pair_views(m.1@)))
            && exists|t: Seq<char>| engine_map(*b).dom().contains(t) && engine_map(*b)[t] == m.0,
        r is None ==> engine_found(*b, path@) is None,
{
    let router = b.clone().build();
    let matched = router.search(path)?;
    let id = *matched.data();
    let params = matched.parameters().iter().map(|(k, v)| ((*k).to_string(), (*v).to_string())).collect();
    Some((id, params))
}

} // verus!
