//! The route table: registration, composition, and the dispatch decision.
//!
//! A table owns the matching engine, the registered endpoints in id order,
//! and the id↔template correspondence. Ids are dense: the endpoint of route
//! id `n` sits at index `n` of the endpoint list, whose length always equals
//! the template list's. Registering a template that is already present
//! merges the two endpoints' method sets; registering a new one hands it to
//! the engine under the next id. Merging re-registers another table's routes
//! here; nesting re-registers them under a path prefix with a
//! prefix-stripping wrapper around each endpoint.

use vstd::prelude::*;
use axum::routing::MethodRouter;
use wayfind::RouterBuilder;
use crate::endpoint::{
    clone_state, endpoint_clone, endpoint_from_handler, endpoint_from_service, endpoint_layer,
    endpoint_merge, endpoint_not_found, endpoint_route_layer, endpoint_strip_prefix,
    endpoint_with_state, BoxedLayer, BoxedService,
};
use crate::engine::{engine_accepts, engine_found, engine_insert, engine_map, engine_new, engine_search};
use crate::extract::matched_path::MatchedPath;
use crate::extract::path::WayfindUrlParams;
use crate::strip_prefix::{segments, spec_segments, views_of, StripPrefixLayer};
use crate::syntax::{spec_translate, translate_template, wf_template};
use crate::text::{contains_chars, contains_seq, str_to_chars, string_concat};

verus! {

/// Templates may not use the parameter-name marker reserved for the
/// wildcards that nesting synthesizes.
pub open spec fn spec_reserved(path: Seq<char>) -> bool {
    contains_seq(path, "{__private_"@) || contains_seq(path, "{*__private_"@)
}

/// A prefix-segment shape that nesting refuses: a wildcard capture.
pub open spec fn spec_seg_is_wildcard(seg: Seq<char>) -> bool {
    seg.len() >= 2 && seg[0] == '{' && seg[1] == '*' && seg[seg.len() - 1] == '}'
}

/// A path a table can be nested under: rooted, not the root itself, and
/// free of wildcard captures.
pub open spec fn spec_valid_nest_path(p: Seq<char>) -> bool {
    &&& p.len() > 0
    &&& p != seq!['/']
    &&& p[0] == '/'
    &&& forall|i: int|
        0 <= i < spec_segments(p).len() ==> !spec_seg_is_wildcard(#[trigger] spec_segments(p)[i])
}

/// A build-time registration failure. These reflect mistakes in route
/// declarations and abort table construction.
#[derive(Debug)]
pub enum RouterError {
    /// The path does not start with the root marker `/`.
    InvalidPath {
        /// The offending path.
        path: String,
    },
    /// The template uses the reserved internal parameter-name marker.
    ReservedParameterName {
        /// The offending template.
        path: String,
    },
    /// The template's capture delimiters are unbalanced.
    MalformedTemplate {
        /// The offending template.
        path: String,
    },
    /// The matching engine refused the template: a capture form it does not
    /// accept, or a structural conflict with a registered template.
    Conflict {
        /// The engine's description of the conflict.
        message: String,
    },
    /// Nesting at the root (or under an empty path) is not supported.
    NestAtRoot,
    /// A nest path must not contain a wildcard capture.
    NestUnderWildcard {
        /// The offending path.
        path: String,
    },
}

/// Whether a registration is caller-facing (reserved parameter names are
/// refused) or internal to nesting (they are allowed).
enum RegistrationKind {
    Public,
    Internal,
}

/// What to do with a request that matches no registered route.
#[verifier::reject_recursive_types(S)]
enum Fallback<S> {
    /// Answer with a bare 404 Not Found.
    Default,
    /// Hand the request to this endpoint.
    Handler(MethodRouter<S>),
}

/// A route table under construction, and — once its state is supplied — the
/// read-only structure dispatch works on.
#[verifier::reject_recursive_types(S)]
pub struct Router<S = ()> {
    engine: RouterBuilder<usize>,
    routes: Vec<MethodRouter<S>>,
    templates: Vec<String>,
    fallback: Fallback<S>,
}

/// The views of a list of template strings.
pub open spec fn template_views(ts: Seq<String>) -> Seq<Seq<char>> {
    ts.map_values(|t: String| t@)
}

/// No two registered templates are the same.
pub open spec fn templates_distinct(ts: Seq<Seq<char>>) -> bool {
    forall|i: int, j: int| 0 <= i < j < ts.len() ==> ts[i] != ts[j]
}

/// Every registered template starts with the path-root marker.
pub open spec fn templates_rooted(ts: Seq<Seq<char>>) -> bool {
    forall|i: int| 0 <= i < ts.len() ==> (#[trigger] ts[i]).len() > 0 && ts[i][0] == '/'
}

/// The engine holds template `t` (in translated form) under id `i`.
pub open spec fn engine_has(m: Map<Seq<char>, usize>, t: Seq<char>, i: int) -> bool {
    let p = spec_translate(t, false).unwrap();
    m.dom().contains(p) && m[p] == i
}

impl<S> Router<S> {
    /// The registered templates, in id order.
    pub closed spec fn spec_templates(&self) -> Seq<Seq<char>> {
        template_views(self.templates@)
    }

    /// The engine's contents: translated template text to id.
    pub closed spec fn spec_engine(&self) -> Map<Seq<char>, usize> {
        engine_map(self.engine)
    }

    /// How many endpoints the table holds.
    pub closed spec fn spec_route_count(&self) -> nat {
        self.routes@.len()
    }

    /// Whether a custom fallback has been installed.
    pub closed spec fn spec_has_custom_fallback(&self) -> bool {
        self.fallback is Handler
    }

    /// Whether the engine would accept this (translated) template text.
    pub closed spec fn spec_accepts(&self, template: Seq<char>) -> bool {
        engine_accepts(self.engine, template)
    }

    /// What the engine's search yields for a request path: the matched id
    /// and the raw capture pairs, or nothing.
    pub closed spec fn spec_search(&self, path: Seq<char>) -> Option<
        (usize, Seq<(Seq<char>, Seq<char>)>),
    > {
        engine_found(self.engine, path)
    }

    /// The registered endpoints, in id order.
    pub closed spec fn spec_routes(&self) -> Seq<MethodRouter<S>> {
        self.routes@
    }

    /// The table's invariant: endpoints and templates correspond one to one;
    /// templates are distinct and well-formed; the engine holds exactly the
    /// translations of the templates, each under its id.
    #[verifier::type_invariant]
    closed spec fn wf(&self) -> bool {
        &&& self.spec_route_count() == self.spec_templates().len()
        &&& templates_distinct(self.spec_templates())
        &&& templates_rooted(self.spec_templates())
        &&& (forall|i: int|
            0 <= i < self.spec_templates().len() ==> wf_template(#[trigger] self.spec_templates()[i]))
        &&& (forall|i: int|
            0 <= i < self.spec_templates().len() ==> engine_has(
                self.spec_engine(),
                #[trigger] self.spec_templates()[i],
                i,
            ))
        &&& (forall|p: Seq<char>|
            #[trigger] self.spec_engine().dom().contains(p) ==> exists|i: int|
                0 <= i < self.spec_templates().len() && p == spec_translate(
                    self.spec_templates()[i],
                    false,
                ).unwrap())
    }

}

/// How a table changes when a template that is already registered is
/// registered again: the endpoints under that one template are merged in
/// place, and every other endpoint — and everything else — stays.
pub open spec fn spec_route_merged<S>(pre: Router<S>, path: Seq<char>, post: Router<S>) -> bool {
    &&& post.spec_templates() == pre.spec_templates()
    &&& post.spec_engine() == pre.spec_engine()
    &&& post.spec_route_count() == pre.spec_route_count()
    &&& post.spec_has_custom_fallback() == pre.spec_has_custom_fallback()
    &&& exists|i: int|
        0 <= i < pre.spec_templates().len() && pre.spec_templates()[i] == path && (forall|j: int|
            0 <= j < pre.spec_routes().len() && j != i ==> post.spec_routes()[j]
                == pre.spec_routes()[j])
}

/// How a table changes when a new template is registered: it is appended
/// under the next id with the endpoint it was registered with, and its
/// translation enters the engine under that id.
pub open spec fn spec_route_added<S>(
    pre: Router<S>,
    path: Seq<char>,
    endpoint: MethodRouter<S>,
    post: Router<S>,
) -> bool {
    &&& post.spec_templates() == pre.spec_templates().push(path)
    &&& post.spec_routes() == pre.spec_routes().push(endpoint)
    &&& post.spec_engine() == pre.spec_engine().insert(
        spec_translate(path, false).unwrap(),
        pre.spec_templates().len() as usize,
    )
    &&& post.spec_route_count() == pre.spec_route_count() + 1
    &&& post.spec_has_custom_fallback() == pre.spec_has_custom_fallback()
}

/// The whole contract of registration. `checked` is whether the reserved
/// parameter-name marker is refused (caller-facing registration) or allowed
/// (internal registration during nesting). Success is owed exactly when the
/// checks pass and the engine accepts the translated template; the engine's
/// refusal surfaces as `Conflict`.
pub open spec fn spec_register_outcome<S>(
    pre: Router<S>,
    path: Seq<char>,
    endpoint: MethodRouter<S>,
    checked: bool,
    r: Result<Router<S>, RouterError>,
) -> bool {
    if checked && spec_reserved(path) {
        r matches Err(e) && e matches RouterError::ReservedParameterName { .. }
    } else if !(path.len() > 0 && path[0] == '/') {
        r matches Err(e) && e matches RouterError::InvalidPath { .. }
    } else if pre.spec_templates().contains(path) {
        r matches Ok(post) && spec_route_merged(pre, path, post)
    } else if !wf_template(path) {
        r matches Err(e) && e matches RouterError::MalformedTemplate { .. }
    } else if pre.spec_accepts(spec_translate(path, false).unwrap()) {
        r matches Ok(post) && spec_route_added(pre, path, endpoint, post)
    } else {
        r matches Err(e) && e matches RouterError::Conflict { .. }
    }
}

impl<S> Router<S> where S: Clone + Send + Sync + 'static {
    /// Creates an empty table: no templates, default fallback.
    pub fn new() -> (r: Router<S>)
        ensures
            r.spec_templates() == Seq::<Seq<char>>::empty(),
            !r.spec_has_custom_fallback(),
    {
        let r = Router {
            engine: engine_new(),
            routes: Vec::new(),
            templates: Vec::new(),
            fallback: Fallback::Default,
        };
        proof {
            assert(r.spec_templates() =~= Seq::<Seq<char>>::empty());
            assert(r.wf());
        }
        r
    }

    /// Finds the id of a registered template.
    fn find_template(&self, path: &str) -> (r: Option<usize>)
        ensures
            match r {
                Some(i) => i < self.spec_templates().len() && self.spec_templates()[i as int]
                    == path@,
                None => !self.spec_templates().contains(path@),
            },
    {
        let needle = path.to_owned();
        let mut i: usize = 0;
        while i < self.templates.len()
            invariant
                needle@ == path@,
                i <= self.templates@.len(),
                forall|j: int| 0 <= j < i ==> self.spec_templates()[j] != path@,
            decreases self.templates@.len() - i,
        {
            if self.templates[i] == needle {
                return Some(i);
            }
            i = i + 1;
        }
        proof {
            assert(!self.spec_templates().contains(path@)) by {
                if self.spec_templates().contains(path@) {
                    let j = choose|j: int|
                        0 <= j < self.spec_templates().len() && self.spec_templates()[j] == path@;
                    assert(self.spec_templates()[j] != path@);
                }
            }
        }
        None
    }

    /// Whether a template is registered, verbatim.
    pub fn has_route(&self, path: &str) -> (r: bool)
        ensures
            r == self.spec_templates().contains(path@),
    {
        match self.find_template(path) {
            Some(i) => {
                proof {
                    assert(self.spec_templates().contains(path@)) by {
                        assert(self.spec_templates()[i as int] == path@);
                    }
                }
                true
            },
            None => false,
        }
    }

    /// The registered templates, in id order.
    pub fn templates(&self) -> (r: &Vec<String>)
        ensures
            template_views(r@) == self.spec_templates(),
    {
        &self.templates
    }

    /// How many endpoints the table holds.
    pub fn route_count(&self) -> (r: usize)
        ensures
            r == self.spec_templates().len(),
    {
        proof {
            use_type_invariant(self);
        }
        self.routes.len()
    }

    /// Assembles a table from parts that satisfy the invariant.
    fn assemble(
        engine: RouterBuilder<usize>,
        routes: Vec<MethodRouter<S>>,
        templates: Vec<String>,
        fallback: Fallback<S>,
    ) -> (r: Router<S>)
        requires
            routes@.len() == template_views(templates@).len(),
            templates_distinct(template_views(templates@)),
            templates_rooted(template_views(templates@)),
            forall|i: int|
                0 <= i < template_views(templates@).len() ==> wf_template(
                    #[trigger] template_views(templates@)[i],
                ),
            forall|i: int|
                0 <= i < template_views(templates@).len() ==> engine_has(
                    engine_map(engine),
                    #[trigger] template_views(templates@)[i],
                    i,
                ),
            forall|p: Seq<char>|
                #[trigger] engine_map(engine).dom().contains(p) ==> exists|i: int|
                    0 <= i < template_views(templates@).len() && p == spec_translate(
                        template_views(templates@)[i],
                        false,
                    ).unwrap(),
        ensures
            r.spec_templates() == template_views(templates@),
            r.spec_routes() == routes@,
            r.spec_engine() == engine_map(engine),
            r.spec_route_count() == routes@.len(),
            r.spec_has_custom_fallback() == (fallback is Handler),
    {
        Router { engine, routes, templates, fallback }
    }

    /// Registration: refuse a reserved name where the registration is
    /// caller-facing, demand a rooted path, merge into an existing
    /// registration of the same template, or translate and hand the
    /// template to the engine under the next id.
    fn register(self, kind: RegistrationKind, path: &str, endpoint: MethodRouter<S>) -> (r: Result<
        Router<S>,
        RouterError,
    >)
        ensures
            spec_register_outcome(
                self,
                path@,
                endpoint,
                kind is Public,
                r,
            ),
    {
        proof {
            use_type_invariant(&self);
        }
        let ghost pre = self;
        let path_chars = str_to_chars(path);
        let checked = match kind {
            RegistrationKind::Public => true,
            RegistrationKind::Internal => false,
        };
        if checked {
            let needle_plain = str_to_chars("{__private_");
            let needle_wild = str_to_chars("{*__private_");
            if contains_chars(&path_chars, &needle_plain) || contains_chars(
                &path_chars,
                &needle_wild,
            ) {
                return Err(RouterError::ReservedParameterName { path: path.to_owned() });
            }
        }
        if path_chars.len() == 0 || path_chars[0] != '/' {
            return Err(RouterError::InvalidPath { path: path.to_owned() });
        }
        let found = self.find_template(path);
        let Router { mut engine, mut routes, mut templates, fallback } = self;
        match found {
            Some(i) => {
                let existing = routes.remove(i);
                let merged = endpoint_merge(existing, endpoint);
                routes.insert(i, merged);
                proof {
                    assert(routes@.len() == templates@.len());
                    assert(pre.spec_templates().contains(path@)) by {
                        assert(pre.spec_templates()[i as int] == path@);
                    }
                    assert forall|j: int|
                        0 <= j < pre.spec_routes().len() && j != i implies routes@[j]
                        == pre.spec_routes()[j] by {
                        assert(routes@ == pre.spec_routes().remove(i as int).insert(
                            i as int,
                            merged,
                        ));
                    }
                }
                let post = Self::assemble(engine, routes, templates, fallback);
                proof {
                    assert(post.spec_templates() =~= pre.spec_templates());
                    assert(spec_route_merged(pre, path@, post)) by {
                        assert(pre.spec_templates()[i as int] == path@ && (forall|j: int|
                            0 <= j < pre.spec_routes().len() && j != i
                                ==> post.spec_routes()[j] == pre.spec_routes()[j]));
                    }
                }
                Ok(post)
            },
            None => {
                let id = routes.len();
                let translated = match translate_template(path) {
                    Some(t) => t,
                    None => {
                        return Err(RouterError::MalformedTemplate { path: path.to_owned() });
                    },
                };
                match engine_insert(&mut engine, translated.as_str(), id) {
                    Ok(_) => {
                        routes.push(endpoint);
                        templates.push(path.to_owned());
                        proof {
                            assert(template_views(templates@) =~= pre.spec_templates().push(
                                path@,
                            ));
                            assert(id == pre.spec_templates().len());
                            lemma_register_preserves_shape(
                                pre.spec_templates(),
                                pre.spec_engine(),
                                path@,
                            );
                            assert(spec_translate(path@, false).unwrap() == translated@);
                            assert(engine_map(engine) == pre.spec_engine().insert(
                                spec_translate(path@, false).unwrap(),
                                pre.spec_templates().len() as usize,
                            ));
                            assert(routes@.len() == templates@.len());
                        }
                        let post = Self::assemble(engine, routes, templates, fallback);
                        proof {
                            assert(post.spec_templates() =~= pre.spec_templates().push(path@));
                        }
                        Ok(post)
                    },
                    Err(message) => Err(RouterError::Conflict { message }),
                }
            },
        }
    }

    /// Registers an endpoint at the given path template. If the template is
    /// already registered, the existing endpoint and the new one are merged
    /// (their method sets are combined). Templates using the reserved
    /// internal parameter-name marker are refused here.
    pub fn route(self, path: &str, endpoint: MethodRouter<S>) -> (r: Result<Router<S>, RouterError>)
        ensures
            spec_register_outcome(self, path@, endpoint, true, r),
    {
        self.register(RegistrationKind::Public, path, endpoint)
    }

    /// Registers a raw service at the given path template, serving every
    /// HTTP method.
    pub fn route_service(self, path: &str, service: BoxedService) -> (r: Result<
        Router<S>,
        RouterError,
    >)
        ensures
            exists|endpoint: MethodRouter<S>| spec_register_outcome(self, path@, endpoint, true, r),
    {
        let endpoint = endpoint_from_service(service);
        let res = self.register(RegistrationKind::Public, path, endpoint);
        res
    }
}

/// A fresh registration under a fresh id keeps the table's shape: the new
/// template is distinct from every registered one, and the engine gains
/// exactly its translation, under the next id. The engine's success further
/// means the translated text was not yet present, so no registered binding
/// is overwritten.
proof fn lemma_register_preserves_shape(ts: Seq<Seq<char>>, m: Map<Seq<char>, usize>, path: Seq<
    char,
>)
    requires
        ts.len() <= usize::MAX,
        templates_distinct(ts),
        templates_rooted(ts),
        path.len() > 0 && path[0] == '/',
        forall|i: int| 0 <= i < ts.len() ==> wf_template(#[trigger] ts[i]),
        forall|i: int| 0 <= i < ts.len() ==> engine_has(m, #[trigger] ts[i], i),
        forall|p: Seq<char>| #[trigger] m.dom().contains(p) ==> exists|i: int|
            0 <= i < ts.len() && p == spec_translate(ts[i], false).unwrap(),
        !ts.contains(path),
        wf_template(path),
        !m.dom().contains(spec_translate(path, false).unwrap()),
    ensures
        templates_distinct(ts.push(path)),
        templates_rooted(ts.push(path)),
        forall|i: int| 0 <= i < ts.push(path).len() ==> wf_template(#[trigger] ts.push(path)[i]),
        forall|i: int| 0 <= i < ts.push(path).len() ==> engine_has(
            m.insert(spec_translate(path, false).unwrap(), ts.len() as usize),
            #[trigger] ts.push(path)[i],
            i,
        ),
        forall|p: Seq<char>|
            #[trigger] m.insert(
                spec_translate(path, false).unwrap(),
                ts.len() as usize,
            ).dom().contains(p) ==> exists|i: int|
                0 <= i < ts.push(path).len() && p == spec_translate(
                    ts.push(path)[i],
                    false,
                ).unwrap(),
{
    let ts2 = ts.push(path);
    let p_new = spec_translate(path, false).unwrap();
    let n = ts.len() as int;
    let m2 = m.insert(p_new, ts.len() as usize);
    assert forall|i: int, j: int| 0 <= i < j < ts2.len() implies ts2[i] != ts2[j] by {
        if j == n {
            assert(ts2[j] == path);
            assert(ts[i] != path) by {
                if ts[i] == path {
                    assert(ts.contains(path));
                }
            }
        }
    }
    assert forall|i: int| 0 <= i < ts2.len() implies engine_has(m2, #[trigger] ts2[i], i) by {
        if i < n {
            assert(ts2[i] == ts[i]);
            assert(engine_has(m, ts[i], i));
            let p_i = spec_translate(ts[i], false).unwrap();
            assert(m.dom().contains(p_i));
            assert(p_i != p_new);
            assert(m2.dom().contains(p_i) && m2[p_i] == m[p_i]);
        } else {
            assert(ts2[i] == path);
            assert(m2.dom().contains(p_new) && m2[p_new] == ts.len() as usize);
        }
    }
    assert forall|p: Seq<char>| #[trigger] m2.dom().contains(p) implies exists|i: int|
        0 <= i < ts2.len() && p == spec_translate(ts2[i], false).unwrap() by {
        if p == p_new {
            assert(ts2[n] == path);
            assert(0 <= n < ts2.len() && p == spec_translate(ts2[n], false).unwrap());
        } else {
            assert(m.dom().contains(p));
            let i = choose|i: int| 0 <= i < ts.len() && p == spec_translate(ts[i], false).unwrap();
            assert(0 <= i < ts2.len() && p == spec_translate(ts2[i], false).unwrap());
        }
    }
}

/// A sequence gains exactly one member when a value is pushed onto it.
proof fn lemma_push_contains<A>(s: Seq<A>, x: A, t: A)
    ensures
        s.push(x).contains(t) <==> (s.contains(t) || t == x),
{
    if s.contains(t) {
        let i = choose|i: int| 0 <= i < s.len() && s[i] == t;
        assert(s.push(x)[i] == t);
    }
    if t == x {
        assert(s.push(x)[s.len() as int] == t);
    }
    if s.push(x).contains(t) {
        let i = choose|i: int| 0 <= i < s.push(x).len() && s.push(x)[i] == t;
        if i < s.len() {
            assert(s[i] == t);
        }
    }
}

/// The templates of a table after another's are re-registered into it, in
/// order: each incoming template joins the list unless it is already there.
pub open spec fn spec_merge_templates(a: Seq<Seq<char>>, b: Seq<Seq<char>>) -> Seq<Seq<char>>
    decreases b.len(),
{
    if b.len() == 0 {
        a
    } else if a.contains(b[0]) {
        spec_merge_templates(a, b.skip(1))
    } else {
        spec_merge_templates(a.push(b[0]), b.skip(1))
    }
}

/// Merge keeps every route and invents none: when the incoming table's
/// templates are all new to the receiving table, the merged table's
/// templates are exactly the receiving table's followed by the incoming
/// table's — it matches both route sets and nothing else.
pub proof fn lemma_merge_disjoint(a: Seq<Seq<char>>, b: Seq<Seq<char>>)
    requires
        forall|t: Seq<char>| b.contains(t) ==> !a.contains(t),
        templates_distinct(b),
    ensures
        spec_merge_templates(a, b) == a + b,
    decreases b.len(),
{
    if b.len() == 0 {
        assert(a + b =~= a);
    } else {
        let b0 = b[0];
        assert(b.contains(b0));
        let a2 = a.push(b0);
        assert forall|t: Seq<char>| b.skip(1).contains(t) implies !a2.contains(t) by {
            let j = choose|j: int| 0 <= j < b.skip(1).len() && b.skip(1)[j] == t;
            assert(b[j + 1] == t);
            assert(b.contains(t));
            if a2.contains(t) {
                let k = choose|k: int| 0 <= k < a2.len() && a2[k] == t;
                if k < a.len() {
                    assert(a[k] == t);
                    assert(a.contains(t));
                } else {
                    assert(t == b0);
                    assert(b[0] == b[j + 1]);
                }
            }
        }
        assert(templates_distinct(b.skip(1))) by {
            assert forall|i: int, j: int| 0 <= i < j < b.skip(1).len() implies b.skip(1)[i]
                != b.skip(1)[j] by {
                assert(b.skip(1)[i] == b[i + 1]);
                assert(b.skip(1)[j] == b[j + 1]);
            }
        }
        lemma_merge_disjoint(a2, b.skip(1));
        assert(a2 + b.skip(1) =~= a + b);
    }
}

impl<S> Router<S> where S: Clone + Send + Sync + 'static {
    /// Merges another table into this one: every incoming endpoint is
    /// re-registered here under its original template, in id order, with the
    /// usual merge-on-duplicate rule; an incoming custom fallback replaces
    /// this table's fallback, while an incoming default fallback leaves it
    /// alone.
    pub fn merge(self, other: Router<S>) -> (r: Result<Router<S>, RouterError>)
        ensures
            r matches Ok(post) ==> {
                &&& post.spec_templates() == spec_merge_templates(
                    self.spec_templates(),
                    other.spec_templates(),
                )
                &&& post.spec_has_custom_fallback() == (self.spec_has_custom_fallback()
                    || other.spec_has_custom_fallback())
            },
            r matches Err(e) ==> (e matches RouterError::Conflict { .. } || e
                matches RouterError::ReservedParameterName { .. }),
            (forall|t: Seq<char>|
                other.spec_templates().contains(t) ==> self.spec_templates().contains(t)
                    && !spec_reserved(t)) ==> r is Ok,
    {
        proof {
            use_type_invariant(&other);
        }
        let ghost a0 = self.spec_templates();
        let ghost bs = other.spec_templates();
        let ghost fb0 = self.spec_has_custom_fallback();
        let Router { engine: _, routes: oroutes, templates: otemplates, fallback: ofallback } =
            other;
        let mut cur = self;
        let mut i: usize = 0;
        proof {
            assert(bs.skip(0) =~= bs);
            assert(forall|t: Seq<char>| a0.contains(t) ==> cur.spec_templates().contains(t));
        }
        while i < oroutes.len()
            invariant
                oroutes@.len() == otemplates@.len(),
                template_views(otemplates@) == bs,
                a0 == self.spec_templates(),
                bs == other.spec_templates(),
                i <= oroutes@.len(),
                forall|j: int|
                    0 <= j < bs.len() ==> ((#[trigger] bs[j]).len() > 0 && bs[j][0] == '/'
                        && wf_template(bs[j])),
                spec_merge_templates(a0, bs) == spec_merge_templates(
                    cur.spec_templates(),
                    bs.skip(i as int),
                ),
                cur.spec_has_custom_fallback() == fb0,
                forall|t: Seq<char>| a0.contains(t) ==> cur.spec_templates().contains(t),
            decreases oroutes@.len() - i,
        {
            let ghost curg = cur;
            proof {
                assert(bs.skip(i as int)[0] == bs[i as int]);
                assert(bs.skip(i as int).skip(1) =~= bs.skip(i + 1));
            }
            let endpoint = endpoint_clone(&oroutes[i]);
            let ghost epg = endpoint;
            let res = cur.route(otemplates[i].as_str(), endpoint);
            proof {
                let t_i = bs[i as int];
                assert(bs.contains(t_i)) by {
                    assert(bs[i as int] == t_i);
                }
                if res is Ok {
                    lemma_registered_contains(curg, t_i, epg, true, res);
                } else {
                    // The only registration errors left open to a template
                    // that is rooted and well-formed are the reserved-name
                    // refusal and an engine conflict.
                    assert(res matches Err(e) && (e matches RouterError::Conflict { .. } || e
                        matches RouterError::ReservedParameterName { .. }));
                    // And neither can arise for a template this table
                    // already holds and that is not reserved.
                    if !spec_reserved(t_i) && a0.contains(t_i) {
                        assert(curg.spec_templates().contains(t_i));
                        assert(false);
                    }
                }
            }
            cur = match res {
                Ok(c) => c,
                Err(e) => {
                    return Err(e);
                },
            };
            i = i + 1;
        }
        proof {
            assert(bs.skip(oroutes@.len() as int) =~= Seq::<Seq<char>>::empty());
        }
        proof {
            use_type_invariant(&cur);
        }
        let ghost curg = cur;
        let Router { engine, routes, templates, fallback } = cur;
        proof {
            assert(template_views(templates@) == curg.spec_templates());
            assert(engine_map(engine) == curg.spec_engine());
            assert(routes@.len() == template_views(templates@).len());
        }
        let new_fallback = match ofallback {
            Fallback::Handler(h) => Fallback::Handler(h),
            Fallback::Default => fallback,
        };
        let post = Self::assemble(engine, routes, templates, new_fallback);
        Ok(post)
    }
}

/// One matched route, as dispatch hands it out: the endpoint (a fresh
/// handle), the original template it was registered under, and the decoded
/// path parameters — the per-request metadata the extractors read.
#[verifier::reject_recursive_types(S)]
pub struct MatchedRoute<S> {
    /// The matched route's id: its index in the table.
    pub index: usize,
    /// A clone of the matched endpoint, ready to be invoked.
    pub endpoint: MethodRouter<S>,
    /// The original template, verbatim as registered.
    pub matched_path: MatchedPath,
    /// The percent-decoded captures of the match, in capture order.
    pub params: WayfindUrlParams,
}

/// The dispatch decision for one request path.
#[verifier::reject_recursive_types(S)]
pub enum Dispatch<S> {
    /// A registered route matched.
    Matched(MatchedRoute<S>),
    /// No route matched; invoke the custom fallback endpoint.
    Fallback(MethodRouter<S>),
    /// No route matched and no custom fallback is installed: answer with a
    /// bare 404 Not Found.
    NotFound,
}

impl<S> Router<S> where S: Clone + Send + Sync + 'static {
    /// The dispatch decision: query the engine for the request path; on a
    /// match, hand out the endpoint registered under the matched id together
    /// with its template and the decoded parameters; otherwise fall back.
    /// The outcome is pinned to the engine's named search result: a request
    /// the engine matches is answered by that route, and one it does not is
    /// answered by the custom fallback when one is installed and by
    /// not-found otherwise. Nothing in the table is mutated, so any number
    /// of dispatches may run against one table.
    pub fn dispatch(&self, path: &str) -> (r: Dispatch<S>)
        ensures
            match self.spec_search(path@) {
                Some(found) => r matches Dispatch::Matched(m) && m.index == found.0 && (
                m.index as int) < self.spec_templates().len() && m.matched_path@
                    == self.spec_templates()[m.index as int] && m.params@
                    == crate::extract::path::spec_params_outcome(found.1),
                None => match r {
                    Dispatch::Matched(_) => false,
                    Dispatch::Fallback(_) => self.spec_has_custom_fallback(),
                    Dispatch::NotFound => !self.spec_has_custom_fallback(),
                },
            },
    {
        proof {
            use_type_invariant(self);
        }
        match engine_search(&self.engine, path) {
            Some((id, raw)) => {
                proof {
                    let t = choose|t: Seq<char>|
                        self.spec_engine().dom().contains(t) && self.spec_engine()[t] == id;
                    let i = choose|i: int|
                        0 <= i < self.spec_templates().len() && t == spec_translate(
                            self.spec_templates()[i],
                            false,
                        ).unwrap();
                    assert(engine_has(self.spec_engine(), self.spec_templates()[i], i));
                    assert(id == i);
                }
                let endpoint = endpoint_clone(&self.routes[id]);
                let template = self.templates[id].clone();
                let params = WayfindUrlParams::from_match(&raw);
                proof {
                    assert(params@ == crate::extract::path::spec_params_outcome(
                        crate::extract::path::raw_pair_views(raw@),
                    ));
                }
                Dispatch::Matched(
                    MatchedRoute {
                        index: id,
                        endpoint,
                        matched_path: MatchedPath::new(template),
                        params,
                    },
                )
            },
            None => match &self.fallback {
                Fallback::Default => Dispatch::NotFound,
                Fallback::Handler(mr) => Dispatch::Fallback(endpoint_clone(mr)),
            },
        }
    }

    /// Supplies the state, finalizing the table into its dispatch-ready,
    /// state-free form. Routes, templates, and the fallback choice all carry
    /// over unchanged.
    pub fn with_state(self, state: S) -> (r: Router<()>)
        ensures
            r.spec_templates() == self.spec_templates(),
            r.spec_engine() == self.spec_engine(),
            r.spec_route_count() == self.spec_route_count(),
            r.spec_has_custom_fallback() == self.spec_has_custom_fallback(),
    {
        proof {
            use_type_invariant(&self);
        }
        let ghost pre = self;
        let Router { engine, mut routes, templates, fallback } = self;
        let mut new_routes: Vec<MethodRouter<()>> = Vec::new();
        while routes.len() > 0
            invariant
                new_routes@.len() + routes@.len() == pre.spec_route_count(),
            decreases routes@.len(),
        {
            let mr = routes.remove(0);
            new_routes.push(endpoint_with_state(mr, clone_state(&state)));
        }
        let new_fallback = match fallback {
            Fallback::Default => Fallback::<()>::Default,
            Fallback::Handler(mr) => Fallback::Handler(endpoint_with_state(mr, state)),
        };
        proof {
            assert(template_views(templates@) == pre.spec_templates());
            assert(engine_map(engine) == pre.spec_engine());
        }
        Router::<()>::assemble(engine, new_routes, templates, new_fallback)
    }

    /// Installs a fallback handler for requests that match no route.
    pub fn fallback<H, T>(self, handler: H) -> (r: Router<S>) where
        H: axum::handler::Handler<T, S>,
        T: 'static,

        ensures
            r.spec_templates() == self.spec_templates(),
            r.spec_engine() == self.spec_engine(),
            r.spec_route_count() == self.spec_route_count(),
            r.spec_has_custom_fallback(),
    {
        proof {
            use_type_invariant(&self);
        }
        let ghost pre = self;
        let Router { engine, routes, templates, fallback: _ } = self;
        proof {
            assert(template_views(templates@) == pre.spec_templates());
            assert(engine_map(engine) == pre.spec_engine());
        }
        Self::assemble(
            engine,
            routes,
            templates,
            Fallback::Handler(endpoint_from_handler(handler)),
        )
    }

    /// Installs a fallback service for requests that match no route.
    pub fn fallback_service(self, service: BoxedService) -> (r: Router<S>)
        ensures
            r.spec_templates() == self.spec_templates(),
            r.spec_engine() == self.spec_engine(),
            r.spec_route_count() == self.spec_route_count(),
            r.spec_has_custom_fallback(),
    {
        proof {
            use_type_invariant(&self);
        }
        let ghost pre = self;
        let Router { engine, routes, templates, fallback: _ } = self;
        proof {
            assert(template_views(templates@) == pre.spec_templates());
            assert(engine_map(engine) == pre.spec_engine());
        }
        Self::assemble(
            engine,
            routes,
            templates,
            Fallback::Handler(endpoint_from_service(service)),
        )
    }

    /// Wraps every registered endpoint in the given middleware, leaving the
    /// fallback alone.
    pub fn route_layer(self, layer: &BoxedLayer) -> (r: Router<S>)
        ensures
            r.spec_templates() == self.spec_templates(),
            r.spec_engine() == self.spec_engine(),
            r.spec_route_count() == self.spec_route_count(),
            r.spec_has_custom_fallback() == self.spec_has_custom_fallback(),
    {
        proof {
            use_type_invariant(&self);
        }
        let ghost pre = self;
        let Router { engine, mut routes, templates, fallback } = self;
        let mut new_routes: Vec<MethodRouter<S>> = Vec::new();
        while routes.len() > 0
            invariant
                new_routes@.len() + routes@.len() == pre.spec_route_count(),
            decreases routes@.len(),
        {
            let mr = routes.remove(0);
            new_routes.push(endpoint_route_layer(mr, layer));
        }
        proof {
            assert(template_views(templates@) == pre.spec_templates());
            assert(engine_map(engine) == pre.spec_engine());
        }
        Self::assemble(engine, new_routes, templates, fallback)
    }

    /// Wraps every registered endpoint and the fallback in the given
    /// middleware. A still-default fallback is first made concrete (a plain
    /// 404 endpoint), so the middleware has something to wrap; the table
    /// thereafter counts as having a custom fallback.
    pub fn layer(self, layer: &BoxedLayer) -> (r: Router<S>)
        ensures
            r.spec_templates() == self.spec_templates(),
            r.spec_engine() == self.spec_engine(),
            r.spec_route_count() == self.spec_route_count(),
            r.spec_has_custom_fallback(),
    {
        proof {
            use_type_invariant(&self);
        }
        let ghost pre = self;
        let Router { engine, mut routes, templates, fallback } = self;
        let mut new_routes: Vec<MethodRouter<S>> = Vec::new();
        while routes.len() > 0
            invariant
                new_routes@.len() + routes@.len() == pre.spec_route_count(),
            decreases routes@.len(),
        {
            let mr = routes.remove(0);
            new_routes.push(endpoint_layer(mr, layer));
        }
        let new_fallback = match fallback {
            Fallback::Default => Fallback::Handler(endpoint_layer(endpoint_not_found(), layer)),
            Fallback::Handler(mr) => Fallback::Handler(endpoint_layer(mr, layer)),
        };
        proof {
            assert(template_views(templates@) == pre.spec_templates());
            assert(engine_map(engine) == pre.spec_engine());
        }
        Self::assemble(engine, new_routes, templates, new_fallback)
    }

    /// Wraps this table for serving: the make-service hands out one clone of
    /// the table per connection.
    pub fn into_make_service(self) -> (r: IntoMakeService<Router<S>>)
        ensures
            r.spec_svc() == self,
    {
        IntoMakeService { svc: self }
    }
}

impl Default for Router<()> {
    /// An empty table.
    fn default() -> (r: Router<()>)
        ensures
            r.spec_templates() == Seq::<Seq<char>>::empty(),
            !r.spec_has_custom_fallback(),
    {
        Router::new()
    }
}

/// A make-service: hands out one clone of the wrapped service per incoming
/// connection.
pub struct IntoMakeService<Svc> {
    svc: Svc,
}

impl<Svc> IntoMakeService<Svc> {
    /// The wrapped service.
    pub closed spec fn spec_svc(&self) -> Svc {
        self.svc
    }

    /// Unwraps the service.
    pub fn into_inner(self) -> (r: Svc)
        ensures
            r == self.spec_svc(),
    {
        self.svc
    }
}

/// Whether a segment is a wildcard capture.
fn is_wildcard_seg(seg: &Vec<char>) -> (r: bool)
    ensures
        r == spec_seg_is_wildcard(seg@),
{
    let n = seg.len();
    n >= 2 && seg[0] == '{' && seg[1] == '*' && seg[n - 1] == '}'
}

/// Checks the shape of a nest path and names what is wrong with it:
/// nesting at the root (or under an empty path) is refused, the path must
/// start with `/`, and it must not contain a wildcard capture.
fn check_nest_path(path: &str) -> (r: Result<(), RouterError>)
    ensures
        r is Ok <==> spec_valid_nest_path(path@),
        (path@.len() == 0 || path@ == seq!['/']) ==> (r matches Err(e) && e
            matches RouterError::NestAtRoot),
        (path@.len() > 0 && path@ != seq!['/'] && path@[0] != '/') ==> (r matches Err(e) && e
            matches RouterError::InvalidPath { .. }),
        (path@.len() > 0 && path@ != seq!['/'] && path@[0] == '/' && !spec_valid_nest_path(path@))
            ==> (r matches Err(e) && e matches RouterError::NestUnderWildcard { .. }),
{
    let pc = str_to_chars(path);
    if pc.len() == 0 {
        return Err(RouterError::NestAtRoot);
    }
    if pc.len() == 1 && pc[0] == '/' {
        proof {
            assert(path@ =~= seq!['/']);
        }
        return Err(RouterError::NestAtRoot);
    }
    proof {
        assert(path@ != seq!['/']) by {
            if path@ == seq!['/'] {
                assert(path@.len() == 1);
                assert(path@[0] == '/');
            }
        }
    }
    if pc[0] != '/' {
        return Err(RouterError::InvalidPath { path: path.to_owned() });
    }
    let segs = segments(&pc);
    let mut i: usize = 0;
    while i < segs.len()
        invariant
            pc@ == path@,
            views_of(segs@) == spec_segments(path@),
            i <= segs@.len(),
            path@.len() > 0,
            path@ != seq!['/'],
            path@[0] == '/',
            forall|j: int|
                0 <= j < i ==> !spec_seg_is_wildcard(#[trigger] spec_segments(path@)[j]),
        decreases segs@.len() - i,
    {
        if is_wildcard_seg(&segs[i]) {
            proof {
                assert(spec_segments(path@)[i as int] == segs@[i as int]@);
            }
            return Err(RouterError::NestUnderWildcard { path: path.to_owned() });
        }
        proof {
            assert(spec_segments(path@)[i as int] == segs@[i as int]@);
        }
        i = i + 1;
    }
    Ok(())
}

/// Checks whether a path can be nested under: rooted, not the root itself,
/// and free of wildcard captures.
pub fn validate_nest_path(path: &str) -> (r: bool)
    ensures
        r == spec_valid_nest_path(path@),
{
    match check_nest_path(path) {
        Ok(_) => true,
        Err(_) => false,
    }
}

/// What any successful registration does to the template set: existing
/// templates survive, the registered template is present, nothing else
/// appears, and the fallback choice is untouched.
proof fn lemma_registered_contains<S>(
    pre: Router<S>,
    path: Seq<char>,
    endpoint: MethodRouter<S>,
    checked: bool,
    r: Result<Router<S>, RouterError>,
)
    requires
        spec_register_outcome(pre, path, endpoint, checked, r),
        r is Ok,
    ensures
        forall|t: Seq<char>|
            pre.spec_templates().contains(t) ==> r.unwrap().spec_templates().contains(t),
        r.unwrap().spec_templates().contains(path),
        forall|t: Seq<char>|
            r.unwrap().spec_templates().contains(t) ==> pre.spec_templates().contains(t) || t
                == path,
        r.unwrap().spec_has_custom_fallback() == pre.spec_has_custom_fallback(),
{
    let post = r.unwrap();
    if pre.spec_templates().contains(path) {
        assert(post.spec_templates() == pre.spec_templates());
    } else {
        assert(post.spec_templates() == pre.spec_templates().push(path));
        assert forall|t: Seq<char>|
            pre.spec_templates().contains(t) implies post.spec_templates().contains(t) by {
            lemma_push_contains(pre.spec_templates(), path, t);
        }
        assert(post.spec_templates().contains(path)) by {
            lemma_push_contains(pre.spec_templates(), path, path);
        }
        assert forall|t: Seq<char>|
            post.spec_templates().contains(t) implies pre.spec_templates().contains(t) || t
            == path by {
            lemma_push_contains(pre.spec_templates(), path, t);
        }
    }
}

impl<S> Router<S> where S: Clone + Send + Sync + 'static {
    /// Nests another table under a path prefix: every inner route is
    /// re-registered with the prefix prepended, and its endpoint is wrapped
    /// so that handlers see the request path with the prefix stripped. An
    /// inner root route (`/`) is additionally registered at the bare prefix.
    /// An inner custom fallback is registered as a wildcard catch-all under
    /// the prefix (the engine prefers explicit routes over wildcards), and
    /// also at the bare prefix when nothing else occupies it; the outer
    /// table's own fallback is never replaced.
    pub fn nest(self, path: &str, other: Router<S>) -> (r: Result<Router<S>, RouterError>)
        ensures
            (path@.len() == 0 || path@ == seq!['/']) ==> (r matches Err(e) && e
                matches RouterError::NestAtRoot),
            (path@.len() > 0 && path@ != seq!['/'] && path@[0] != '/') ==> (r matches Err(e) && e
                matches RouterError::InvalidPath { .. }),
            (path@.len() > 0 && path@ != seq!['/'] && path@[0] == '/' && !spec_valid_nest_path(
                path@,
            )) ==> (r matches Err(e) && e matches RouterError::NestUnderWildcard { .. }),
            spec_valid_nest_path(path@) ==> (r matches Err(e) ==> (e
                matches RouterError::ReservedParameterName { .. } || e
                matches RouterError::MalformedTemplate { .. } || e matches RouterError::Conflict {
                ..
            })),
            r matches Ok(post) ==> {
                &&& spec_valid_nest_path(path@)
                &&& forall|t: Seq<char>|
                    self.spec_templates().contains(t) ==> post.spec_templates().contains(t)
                &&& forall|j: int|
                    0 <= j < other.spec_templates().len() ==> post.spec_templates().contains(
                        path@ + other.spec_templates()[j],
                    )
                &&& (other.spec_templates().contains(seq!['/']) ==> post.spec_templates().contains(
                    path@,
                ))
                &&& (other.spec_has_custom_fallback() ==> post.spec_templates().contains(
                    path@ + "/{*__private_nest_tail}"@,
                ) && post.spec_templates().contains(path@))
                &&& post.spec_has_custom_fallback() == self.spec_has_custom_fallback()
                &&& forall|t: Seq<char>|
                    post.spec_templates().contains(t) ==> self.spec_templates().contains(t) || (
                    exists|j: int|
                        0 <= j < other.spec_templates().len() && t == path@
                            + other.spec_templates()[j]) || t == path@ || t == path@
                        + "/{*__private_nest_tail}"@
            },
    {
        proof {
            use_type_invariant(&other);
        }
        if let Err(e) = check_nest_path(path) {
            return Err(e);
        }
        let ghost pre = self;
        let ghost bs = other.spec_templates();
        let ghost fb0 = self.spec_has_custom_fallback();
        let Router { engine: _, routes: oroutes, templates: otemplates, fallback: ofallback } =
            other;
        let strip = StripPrefixLayer::new(path);
        let mut cur = self;
        let mut i: usize = 0;
        while i < oroutes.len()
            invariant
                spec_valid_nest_path(path@),
                oroutes@.len() == otemplates@.len(),
                template_views(otemplates@) == bs,
                i <= oroutes@.len(),
                cur.spec_has_custom_fallback() == fb0,
                forall|t: Seq<char>|
                    pre.spec_templates().contains(t) ==> cur.spec_templates().contains(t),
                forall|j: int|
                    0 <= j < i ==> cur.spec_templates().contains(path@ + #[trigger] bs[j]),
                (exists|j: int| 0 <= j < i && bs[j] == seq!['/'])
                    ==> cur.spec_templates().contains(path@),
                forall|t: Seq<char>|
                    cur.spec_templates().contains(t) ==> pre.spec_templates().contains(t) || (
                    exists|j: int| 0 <= j < i && t == path@ + bs[j]) || (t == path@ && exists|
                        j: int,
                    | 0 <= j < i && bs[j] == seq!['/']),
            decreases oroutes@.len() - i,
        {
            let inner = &otemplates[i];
            let ghost t_i = bs[i as int];
            proof {
                assert(inner@ == t_i);
            }
            let endpoint = endpoint_clone(&oroutes[i]);
            let layered = endpoint_strip_prefix(endpoint, strip.prefix());
            let full = string_concat(path, inner.as_str());
            let ic = str_to_chars(inner.as_str());
            let inner_is_root = ic.len() == 1 && ic[0] == '/';
            proof {
                if inner_is_root {
                    assert(t_i =~= seq!['/']);
                } else {
                    assert(t_i != seq!['/']) by {
                        if t_i == seq!['/'] {
                            assert(t_i.len() == 1);
                            assert(t_i[0] == '/');
                        }
                    }
                }
            }
            if inner_is_root {
                let ghost cur0 = cur;
                let root_ep = endpoint_clone(&layered);
                let ghost root_epg = root_ep;
                let res = cur.route(path, root_ep);
                proof {
                    if res is Ok {
                        lemma_registered_contains(cur0, path@, root_epg, true, res);
                    }
                }
                cur = match res {
                    Ok(c) => c,
                    Err(e) => {
                        return Err(e);
                    },
                };
            }
            let ghost cur1 = cur;
            let ghost layeredg = layered;
            let res = cur.route(full.as_str(), layered);
            proof {
                if res is Ok {
                    lemma_registered_contains(cur1, full@, layeredg, true, res);
                }
            }
            cur = match res {
                Ok(c) => c,
                Err(e) => {
                    return Err(e);
                },
            };
            i = i + 1;
        }
        if let Fallback::Handler(h) = ofallback {
            let layered = endpoint_strip_prefix(h, path);
            let wildcard = string_concat(path, "/{*__private_nest_tail}");
            let ghost cur2 = cur;
            let wild_ep = endpoint_clone(&layered);
            let ghost wild_epg = wild_ep;
            let res = cur.register(RegistrationKind::Internal, wildcard.as_str(), wild_ep);
            proof {
                if res is Ok {
                    lemma_registered_contains(cur2, wildcard@, wild_epg, false, res);
                }
            }
            cur = match res {
                Ok(c) => c,
                Err(e) => {
                    return Err(e);
                },
            };
            if !cur.has_route(path) {
                let ghost cur3 = cur;
                let ghost layeredg = layered;
                let res = cur.route(path, layered);
                proof {
                    if res is Ok {
                        lemma_registered_contains(cur3, path@, layeredg, true, res);
                    }
                }
                cur = match res {
                    Ok(c) => c,
                    Err(e) => {
                        return Err(e);
                    },
                };
            }
        }
        Ok(cur)
    }

    /// Nests a raw service under a path prefix: it serves every method for
    /// every sub-path, with the prefix stripped from the request before the
    /// service sees it. Three templates are registered: a wildcard catch-all
    /// under the prefix, the bare prefix, and — when the prefix lacks a
    /// trailing `/` — the prefix with one.
    pub fn nest_service(self, path: &str, service: BoxedService) -> (r: Result<
        Router<S>,
        RouterError,
    >)
        ensures
            (path@.len() == 0 || path@ == seq!['/']) ==> (r matches Err(e) && e
                matches RouterError::NestAtRoot),
            (path@.len() > 0 && path@ != seq!['/'] && path@[0] != '/') ==> (r matches Err(e) && e
                matches RouterError::InvalidPath { .. }),
            (path@.len() > 0 && path@ != seq!['/'] && path@[0] == '/' && !spec_valid_nest_path(
                path@,
            )) ==> (r matches Err(e) && e matches RouterError::NestUnderWildcard { .. }),
            spec_valid_nest_path(path@) ==> (r matches Err(e) ==> (e
                matches RouterError::ReservedParameterName { .. } || e
                matches RouterError::MalformedTemplate { .. } || e matches RouterError::Conflict {
                ..
            })),
            r matches Ok(post) ==> {
                &&& spec_valid_nest_path(path@)
                &&& forall|t: Seq<char>|
                    self.spec_templates().contains(t) ==> post.spec_templates().contains(t)
                &&& post.spec_templates().contains(path@ + "/{*__private_nest_tail}"@)
                &&& post.spec_templates().contains(path@)
                &&& (path@.last() != '/' ==> post.spec_templates().contains(path@ + seq!['/']))
                &&& forall|t: Seq<char>|
                    post.spec_templates().contains(t) ==> self.spec_templates().contains(t) || t
                        == path@ + "/{*__private_nest_tail}"@ || t == path@ || t == path@
                        + seq!['/']
                &&& post.spec_has_custom_fallback() == self.spec_has_custom_fallback()
            },
    {
        if let Err(e) = check_nest_path(path) {
            return Err(e);
        }
        let ghost pre = self;
        let stripped = endpoint_strip_prefix(endpoint_from_service(service), path);
        let wildcard = string_concat(path, "/{*__private_nest_tail}");
        let ghost cur0 = self;
        let wild_ep = endpoint_clone(&stripped);
        let ghost wild_epg = wild_ep;
        let res = self.register(RegistrationKind::Internal, wildcard.as_str(), wild_ep);
        proof {
            if res is Ok {
                lemma_registered_contains(cur0, wildcard@, wild_epg, false, res);
            }
        }
        let mut cur = match res {
            Ok(c) => c,
            Err(e) => {
                return Err(e);
            },
        };
        let ghost cur1 = cur;
        let bare_ep = endpoint_clone(&stripped);
        let ghost bare_epg = bare_ep;
        let res = cur.route(path, bare_ep);
        proof {
            if res is Ok {
                lemma_registered_contains(cur1, path@, bare_epg, true, res);
            }
        }
        cur = match res {
            Ok(c) => c,
            Err(e) => {
                return Err(e);
            },
        };
        let pc = str_to_chars(path);
        if pc[pc.len() - 1] != '/' {
            let with_slash = string_concat(path, "/");
            proof {
                reveal_strlit("/");
                assert(with_slash@ == path@ + seq!['/']);
            }
            let ghost cur2 = cur;
            let ghost strippedg = stripped;
            let res = cur.route(with_slash.as_str(), stripped);
            proof {
                if res is Ok {
                    lemma_registered_contains(cur2, with_slash@, strippedg, true, res);
                }
            }
            cur = match res {
                Ok(c) => c,
                Err(e) => {
                    return Err(e);
                },
            };
        }
        Ok(cur)
    }
}

} // verus!
