//! The forwarding policy: what to do with an inbound request, and what to do
//! with what the upstream origin answered.
//!
//! The policy performs no network call itself. [`handle_request`] says
//! whether a request is answered from the cache or has to be fetched, and
//! [`handle_upstream`] takes the outcome of that fetch. The caller makes the
//! one upstream attempt in between and holds no lock on the cache while it
//! does. There is no way back from an outcome to another attempt: every
//! request ends in a response or in a failure.
//!
//! Both functions read the cache's clock. [`handle_request_at`] and
//! [`handle_upstream_at`] take the time as an argument instead, and say
//! exactly what is decided at that time.

use crate::cache::Cache;
use crate::clock::duration_nanos;
use crate::model::{lookup, store, CacheEntry};
use crate::request::{Request, RequestView};
use std::time::Duration;
use vstd::prelude::*;
use vstd::string::*;

verus! {

/// The status of a successful response, the only one that is cached.
pub const STATUS_OK: u16 = 200;

/// The status with which a failure to reach upstream is reported.
pub const STATUS_BAD_GATEWAY: u16 = 502;

/// A status and a body, as received from upstream or as sent to the client.
#[derive(Debug, PartialEq, Eq)]
pub struct Response {
    pub status: u16,
    pub body: Vec<u8>,
}

/// An upstream fetch that is due: the URL to get, and the key under which a
/// successful response will be cached.
#[derive(Debug, PartialEq, Eq)]
pub struct Fetch {
    pub key: Request,
    pub url: String,
}

/// What is to be done with an inbound request.
#[derive(Debug, PartialEq, Eq)]
pub enum Decision {
    /// The cache holds a live entry: answer with it, and leave upstream alone.
    Respond(Response),
    /// The cache holds no live entry: make one attempt to fetch upstream.
    Fetch(Fetch),
}

/// How the one attempt to fetch upstream ended.
#[derive(Debug, PartialEq, Eq)]
pub enum Upstream {
    /// Upstream answered, with whatever status.
    Replied(Response),
    /// No answer came: the connection was refused, the name did not resolve,
    /// the attempt timed out.
    Failed,
}

/// Why a request could not be answered.
#[derive(Debug, Clone, Copy, PartialEq, Eq)]
pub enum ForwardError {
    /// Upstream could not be reached. Nothing was cached.
    UpstreamTransportFailure,
}

impl ForwardError {
    /// The status with which the failure is reported to the client. No body
    /// goes with it.
    pub fn status(&self) -> (status: u16)
        ensures
            status == STATUS_BAD_GATEWAY,
    {
        match self {
            ForwardError::UpstreamTransportFailure => STATUS_BAD_GATEWAY,
        }
    }
}

/// The mathematical value of a [`Response`].
pub ghost struct ResponseView {
    pub status: u16,
    pub body: Seq<u8>,
}

impl View for Response {
    type V = ResponseView;

    open spec fn view(&self) -> ResponseView {
        ResponseView { status: self.status, body: self.body@ }
    }
}

/// The mathematical value of a [`Fetch`].
pub ghost struct FetchView {
    pub key: RequestView,
    pub url: Seq<char>,
}

impl View for Fetch {
    type V = FetchView;

    open spec fn view(&self) -> FetchView {
        FetchView { key: self.key@, url: self.url@ }
    }
}

/// The mathematical value of a [`Decision`].
pub ghost enum DecisionView {
    Respond(ResponseView),
    Fetch(FetchView),
}

impl View for Decision {
    type V = DecisionView;

    open spec fn view(&self) -> DecisionView {
        match self {
            Decision::Respond(response) => DecisionView::Respond(response@),
            Decision::Fetch(fetch) => DecisionView::Fetch(fetch@),
        }
    }
}

/// The mathematical value of an [`Upstream`].
pub ghost enum UpstreamView {
    Replied(ResponseView),
    Failed,
}

impl View for Upstream {
    type V = UpstreamView;

    open spec fn view(&self) -> UpstreamView {
        match self {
            Upstream::Replied(response) => UpstreamView::Replied(response@),
            Upstream::Failed => UpstreamView::Failed,
        }
    }
}

/// The scheme that every upstream URL starts with.
pub open spec fn scheme() -> Seq<char> {
    seq!['h', 't', 't', 'p', 's', ':', '/', '/']
}

/// The upstream URL of a request: scheme, origin and path, then `?` and the
/// query string unless the query string is empty.
pub open spec fn upstream_url_of(
    origin: Seq<char>,
    path: Seq<char>,
    query_string: Seq<char>,
) -> Seq<char> {
    let base = scheme() + origin + path;
    if query_string.len() == 0 {
        base
    } else {
        base + seq!['?'] + query_string
    }
}

/// Builds the upstream URL of a request.
pub fn upstream_url(origin: &str, path: &str, query_string: &str) -> (url: String)
    ensures
        url@ == upstream_url_of(origin@, path@, query_string@),
{
    let mut url = String::from_str("https://");
    proof {
        reveal_strlit("https://");
        assert(url@ =~= scheme());
    }
    url.append(origin);
    url.append(path);
    if !query_string.is_empty() {
        proof {
            reveal_strlit("?");
            assert("?"@ =~= seq!['?']);
        }
        url.append("?");
        url.append(query_string);
    }
    url
}

/// The decision that is due for a request at time `now`: a live entry is
/// answered with status 200 and its body; otherwise the request is to be
/// fetched from its upstream URL, under its own key.
pub open spec fn decide(
    contents: Map<RequestView, CacheEntry<Vec<u8>>>,
    origin: Seq<char>,
    path: Seq<char>,
    query_string: Seq<char>,
    now: nat,
) -> DecisionView {
    let key = RequestView { path, query_string };
    match lookup(contents, key, now) {
        Some(body) => DecisionView::Respond(ResponseView { status: STATUS_OK, body: body@ }),
        None => DecisionView::Fetch(
            FetchView { key, url: upstream_url_of(origin, path, query_string) },
        ),
    }
}

/// Whether the fetch ended in a response with status 200.
pub open spec fn succeeded(upstream: UpstreamView) -> bool {
    upstream matches UpstreamView::Replied(response) && response.status == STATUS_OK
}

/// The cache after the outcome of a fetch at time `now`: a response with
/// status 200 is stored under `key`; any other outcome leaves the cache as it
/// was.
pub open spec fn after_upstream(
    contents: Map<RequestView, CacheEntry<Vec<u8>>>,
    key: RequestView,
    upstream: Upstream,
    now: nat,
    ttl: nat,
) -> Map<RequestView, CacheEntry<Vec<u8>>> {
    match upstream {
        Upstream::Replied(response) => if response.status == STATUS_OK {
            store(contents, key, response.body, now, ttl)
        } else {
            contents
        },
        Upstream::Failed => contents,
    }
}

/// The answer to the client after a fetch: the status and body that upstream
/// sent, whatever the status, or the failure.
pub open spec fn relay(upstream: UpstreamView) -> Result<ResponseView, ForwardError> {
    match upstream {
        UpstreamView::Replied(response) => Ok(response),
        UpstreamView::Failed => Err(ForwardError::UpstreamTransportFailure),
    }
}

/// The mathematical value of an answer to the client.
pub open spec fn reply_view(reply: Result<Response, ForwardError>) -> Result<
    ResponseView,
    ForwardError,
> {
    match reply {
        Ok(response) => Ok(response@),
        Err(error) => Err(error),
    }
}

/// A copy of `body`.
fn copy_of(body: &Vec<u8>) -> (copy: Vec<u8>)
    ensures
        copy@ == body@,
{
    body.clone()
}

/// An empty cache of response bodies, each of which will be served for `ttl`
/// after it was fetched.
pub fn new_cache(ttl: Duration) -> (cache: Cache<Request, Vec<u8>>)
    ensures
        cache@ == Map::<RequestView, CacheEntry<Vec<u8>>>::empty(),
        cache.ttl() == duration_nanos(ttl),
{
    Cache::new(ttl)
}

/// Decides what to do with a request that arrives at time `now`. The cache is
/// only read.
pub fn handle_request_at(
    cache: &Cache<Request, Vec<u8>>,
    origin: &str,
    path: String,
    query_string: String,
    now: u128,
) -> (decision: Decision)
    ensures
        decision@ == decide(cache@, origin@, path@, query_string@, now as nat),
{
    let url = upstream_url(origin, path.as_str(), query_string.as_str());
    let key = Request::new(path, query_string);
    match cache.get_at(&key, now) {
        Some(body) => Decision::Respond(Response { status: STATUS_OK, body: copy_of(body) }),
        None => Decision::Fetch(Fetch { key, url }),
    }
}

/// Takes the outcome of the fetch for `key` at time `now`: caches a response
/// with status 200, and relays whatever upstream sent.
pub fn handle_upstream_at(
    cache: &mut Cache<Request, Vec<u8>>,
    key: Request,
    upstream: Upstream,
    now: u128,
) -> (reply: Result<Response, ForwardError>)
    ensures
        final(cache)@ == after_upstream(
            old(cache)@,
            key@,
            upstream,
            now as nat,
            old(cache).ttl(),
        ),
        final(cache).ttl() == old(cache).ttl(),
        reply_view(reply) == relay(upstream@),
{
    match upstream {
        Upstream::Replied(response) => {
            if response.status == STATUS_OK {
                let relayed = Response { status: STATUS_OK, body: copy_of(&response.body) };
                cache.insert_at(key, response.body, now);
                Ok(relayed)
            } else {
                Ok(response)
            }
        },
        Upstream::Failed => Err(ForwardError::UpstreamTransportFailure),
    }
}

/// Decides what to do with a request that arrives now, by the cache's clock.
/// Whatever the clock shows, the decision is the one that is due at that
/// time: see [`handle_request_at`]. The cache is only read.
pub fn handle_request(
    cache: &Cache<Request, Vec<u8>>,
    origin: &str,
    path: String,
    query_string: String,
) -> (decision: Decision)
    ensures
        exists|now: u128|
            decision@ == #[trigger] decide(cache@, origin@, path@, query_string@, now as nat),
{
    let now = cache.now();
    let decision = handle_request_at(cache, origin, path, query_string, now);
    assert(decision@ == decide(cache@, origin@, path@, query_string@, now as nat));
    decision
}

/// Takes the outcome of the fetch for `key` now, by the cache's clock: see
/// [`handle_upstream_at`]. Whatever the clock shows, only a response with
/// status 200 changes the cache, and the reply is what upstream sent.
pub fn handle_upstream(
    cache: &mut Cache<Request, Vec<u8>>,
    key: Request,
    upstream: Upstream,
) -> (reply: Result<Response, ForwardError>)
    ensures
        exists|now: u128|
            final(cache)@ == #[trigger] after_upstream(
                old(cache)@,
                key@,
                upstream,
                now as nat,
                old(cache).ttl(),
            ),
        !succeeded(upstream@) ==> final(cache)@ == old(cache)@,
        final(cache).ttl() == old(cache).ttl(),
        reply_view(reply) == relay(upstream@),
{
    let now = cache.now();
    let reply = handle_upstream_at(cache, key, upstream, now);
    assert(cache@ == after_upstream(old(cache)@, key@, upstream, now as nat, old(cache).ttl()));
    reply
}

/// Only a response with status 200 is cached: any other outcome of a fetch
/// leaves the cache as it was, so that a request that missed still misses
/// afterwards and is fetched from the same URL again.
pub proof fn lemma_only_success_is_cached(
    contents: Map<RequestView, CacheEntry<Vec<u8>>>,
    origin: Seq<char>,
    path: Seq<char>,
    query_string: Seq<char>,
    upstream: Upstream,
    now: nat,
    ttl: nat,
    later: nat,
)
    requires
        !succeeded(upstream@),
        decide(contents, origin, path, query_string, now) is Fetch,
        now <= later,
    ensures
        after_upstream(contents, RequestView { path, query_string }, upstream, now, ttl)
            == contents,
        decide(
            after_upstream(contents, RequestView { path, query_string }, upstream, now, ttl),
            origin,
            path,
            query_string,
            later,
        ) == decide(contents, origin, path, query_string, now),
{
}

/// A response with status 200 is cached as it came: until its time to live
/// has passed, the same request is answered with status 200 and that body,
/// and no fetch is made.
pub proof fn lemma_success_is_served_from_cache(
    contents: Map<RequestView, CacheEntry<Vec<u8>>>,
    origin: Seq<char>,
    path: Seq<char>,
    query_string: Seq<char>,
    body: Vec<u8>,
    now: nat,
    ttl: nat,
    later: nat,
)
    requires
        later < now + ttl,
    ensures
        decide(
            after_upstream(
                contents,
                RequestView { path, query_string },
                Upstream::Replied(Response { status: STATUS_OK, body }),
                now,
                ttl,
            ),
            origin,
            path,
            query_string,
            later,
        ) == DecisionView::Respond(ResponseView { status: STATUS_OK, body: body@ }),
{
}

} // verus!
