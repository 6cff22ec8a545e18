//! Access to the original route template that matched a request.
//!
//! The dispatcher attaches a [`MatchedPath`] to every matched request. It
//! carries the template as registered (e.g. `/users/{id}`), never the
//! concrete request path (e.g. `/users/42`).

use vstd::prelude::*;

verus! {

/// The original route template that matched the current request.
#[derive(Clone, Debug)]
pub struct MatchedPath(String);

impl View for MatchedPath {
    type V = Seq<char>;

    closed spec fn view(&self) -> Seq<char> {
        self.0@
    }
}

impl MatchedPath {
    /// Wraps a registered template.
    pub fn new(template: String) -> (r: Self)
        ensures
            r@ == template@,
    {
        MatchedPath(template)
    }

    /// Returns the template as a string slice.
    pub fn as_str(&self) -> (r: &str)
        ensures
            r@ == self@,
    {
        self.0.as_str()
    }
}

/// Reported when no matched template is attached to the request: the request
/// did not pass through a successful dispatch.
#[derive(Clone, Debug)]
pub struct MatchedPathRejection;

impl MatchedPathRejection {
    /// The response body for this rejection.
    pub fn body_text(&self) -> (r: String)
        ensures
            r@ == "Matched path is not available"@,
    {
        "Matched path is not available".to_owned()
    }

    /// The response status for this rejection: a server error, since a
    /// missing match is a deployment mistake, not the client's fault.
    pub fn status(&self) -> (r: u16)
        ensures
            r == 500u16,
    {
        500
    }
}

} // verus!
