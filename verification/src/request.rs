//! The key under which a response is cached.

use crate::cache::eq_decides_view;
use crate::model::{lookup, store, CacheEntry};
use vstd::prelude::*;
use vstd::std_specs::cmp::PartialEqSpec;

verus! {

/// Identifies a cacheable request by its path and its query string, both
/// exactly as received: nothing is normalised, decoded or reordered.
#[derive(Debug, Eq, Hash)]
pub struct Request {
    pub path: String,
    pub query_string: String,
}

/// The mathematical value of a [`Request`]: its two fields as sequences of
/// characters. Two requests name the same cache entry exactly when their
/// views are equal.
pub ghost struct RequestView {
    pub path: Seq<char>,
    pub query_string: Seq<char>,
}

impl View for Request {
    type V = RequestView;

    open spec fn view(&self) -> RequestView {
        RequestView { path: self.path@, query_string: self.query_string@ }
    }
}

impl Request {
    /// Builds the key from a path and a query string, keeping both unchanged.
    pub fn new(path: String, query_string: String) -> (request: Self)
        ensures
            request.path == path,
            request.query_string == query_string,
    {
        Self { path, query_string }
    }
}

impl PartialEq for Request {
    /// Two requests are equal exactly when both fields are equal, character
    /// for character.
    fn eq(&self, other: &Self) -> (equal: bool) {
        self.path == other.path && self.query_string == other.query_string
    }
}

impl vstd::std_specs::cmp::PartialEqSpecImpl for Request {
    open spec fn obeys_eq_spec() -> bool {
        true
    }

    open spec fn eq_spec(&self, other: &Self) -> bool {
        self.path@ == other.path@ && self.query_string@ == other.query_string@
    }
}

/// A request can key a cache: `==` on requests decides whether two of them
/// name the same entry.
pub proof fn lemma_request_is_a_key()
    ensures
        eq_decides_view::<Request>(),
{
}

/// Two requests are equal, and name the same cache entry, exactly when their
/// paths are equal and their query strings are equal.
pub proof fn lemma_equal_exactly_when_fields_equal(a: Request, b: Request)
    ensures
        a.eq_spec(&b) <==> (a.path@ == b.path@ && a.query_string@ == b.query_string@),
        a@ == b@ <==> (a.path@ == b.path@ && a.query_string@ == b.query_string@),
{
}

/// Requests that differ in path or in query string never collide: what is
/// stored under one changes nothing that is read under the other.
pub proof fn lemma_distinct_requests_do_not_collide<V>(
    contents: Map<RequestView, CacheEntry<V>>,
    a: Request,
    b: Request,
    value: V,
    stored_at: nat,
    ttl: nat,
    now: nat,
)
    requires
        a.path@ != b.path@ || a.query_string@ != b.query_string@,
    ensures
        lookup(store(contents, a@, value, stored_at, ttl), b@, now) == lookup(contents, b@, now),
{
}

} // verus!
