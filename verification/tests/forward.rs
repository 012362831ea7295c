use caching_proxy::cache::Cache;
use caching_proxy::forward::{
    handle_request, handle_request_at, handle_upstream, handle_upstream_at, new_cache,
    upstream_url, Decision, Fetch, ForwardError, Response, Upstream,
};
use caching_proxy::request::Request;
use std::time::Duration;

const SECOND: u128 = 1_000_000_000;

fn key(path: &str, query_string: &str) -> Request {
    Request::new(path.to_string(), query_string.to_string())
}

fn cache_of_thirty_seconds() -> Cache<Request, Vec<u8>> {
    new_cache(Duration::from_secs(30))
}

fn request_at(
    cache: &Cache<Request, Vec<u8>>,
    path: &str,
    query_string: &str,
    now: u128,
) -> Decision {
    handle_request_at(cache, "example.com", path.to_string(), query_string.to_string(), now)
}

fn fetch_of(path: &str, query_string: &str, url: &str) -> Decision {
    Decision::Fetch(Fetch { key: key(path, query_string), url: url.to_string() })
}

#[test]
fn new_cache_is_empty_and_keeps_its_time_to_live() {
    let mut cache = new_cache(Duration::from_millis(1500));
    assert_eq!(cache.len(), 0);
    cache.insert_at(key("/foo", ""), vec![1], 0);
    assert_eq!(cache.get_at(&key("/foo", ""), 1_499_999_999), Some(&vec![1]));
    assert_eq!(cache.get_at(&key("/foo", ""), 1_500_000_000), None);
}

#[test]
fn url_without_query_string_has_no_question_mark() {
    assert_eq!(upstream_url("example.com", "/foo", ""), "https://example.com/foo");
}

#[test]
fn url_with_query_string() {
    assert_eq!(upstream_url("example.com", "/foo", "a=1"), "https://example.com/foo?a=1");
}

#[test]
fn url_keeps_every_part_as_given() {
    assert_eq!(upstream_url("", "", ""), "https://");
    assert_eq!(upstream_url("h", "", "q"), "https://h?q");
    assert_eq!(
        upstream_url("example.com", "/a%20b/ü", "b=2&a=1&a=%3F?"),
        "https://example.com/a%20b/ü?b=2&a=1&a=%3F?"
    );
}

#[test]
fn miss_asks_for_a_fetch_of_the_upstream_url() {
    let cache = cache_of_thirty_seconds();
    assert_eq!(
        request_at(&cache, "/foo", "", 0),
        fetch_of("/foo", "", "https://example.com/foo")
    );
    assert_eq!(
        request_at(&cache, "/foo", "a=1", 0),
        fetch_of("/foo", "a=1", "https://example.com/foo?a=1")
    );
    assert_eq!(cache.len(), 0);
}

#[test]
fn successful_response_is_relayed_and_cached() {
    let mut cache = cache_of_thirty_seconds();
    let upstream = Upstream::Replied(Response { status: 200, body: b"hello".to_vec() });
    let reply = handle_upstream_at(&mut cache, key("/foo", "a=1"), upstream, 5 * SECOND);
    assert_eq!(reply, Ok(Response { status: 200, body: b"hello".to_vec() }));
    assert_eq!(cache.len(), 1);
    assert_eq!(cache.get_at(&key("/foo", "a=1"), 5 * SECOND), Some(&b"hello".to_vec()));
}

#[test]
fn hit_is_answered_from_the_cache_until_it_expires() {
    let mut cache = cache_of_thirty_seconds();
    let upstream = Upstream::Replied(Response { status: 200, body: b"hello".to_vec() });
    assert!(handle_upstream_at(&mut cache, key("/foo", "a=1"), upstream, 5 * SECOND).is_ok());
    assert_eq!(
        request_at(&cache, "/foo", "a=1", 15 * SECOND),
        Decision::Respond(Response { status: 200, body: b"hello".to_vec() })
    );
    assert_eq!(
        request_at(&cache, "/foo", "a=1", 35 * SECOND - 1),
        Decision::Respond(Response { status: 200, body: b"hello".to_vec() })
    );
    assert_eq!(
        request_at(&cache, "/foo", "a=1", 35 * SECOND),
        fetch_of("/foo", "a=1", "https://example.com/foo?a=1")
    );
    // A hit changes nothing in the cache.
    assert_eq!(cache.len(), 1);
    assert!(cache.is_stored(&key("/foo", "a=1")));
}

#[test]
fn hit_for_one_query_string_is_a_miss_for_another() {
    let mut cache = cache_of_thirty_seconds();
    let upstream = Upstream::Replied(Response { status: 200, body: b"one".to_vec() });
    assert!(handle_upstream_at(&mut cache, key("/foo", "a=1"), upstream, 0).is_ok());
    assert_eq!(
        request_at(&cache, "/foo", "a=2", 1),
        fetch_of("/foo", "a=2", "https://example.com/foo?a=2")
    );
    assert_eq!(
        request_at(&cache, "/foo", "", 1),
        fetch_of("/foo", "", "https://example.com/foo")
    );
}

#[test]
fn not_found_is_passed_through_and_not_cached() {
    let mut cache = cache_of_thirty_seconds();
    let upstream = Upstream::Replied(Response { status: 404, body: b"not found".to_vec() });
    let reply = handle_upstream_at(&mut cache, key("/foo", ""), upstream, 0);
    assert_eq!(reply, Ok(Response { status: 404, body: b"not found".to_vec() }));
    assert!(!cache.is_stored(&key("/foo", "")));
    assert_eq!(cache.len(), 0);
}

#[test]
fn request_after_an_unsuccessful_response_is_fetched_again() {
    let mut cache = cache_of_thirty_seconds();
    let first = request_at(&cache, "/foo", "a=1", 0);
    assert_eq!(first, fetch_of("/foo", "a=1", "https://example.com/foo?a=1"));
    let upstream = Upstream::Replied(Response { status: 500, body: b"oops".to_vec() });
    let reply = handle_upstream_at(&mut cache, key("/foo", "a=1"), upstream, 0);
    assert_eq!(reply, Ok(Response { status: 500, body: b"oops".to_vec() }));
    let second = request_at(&cache, "/foo", "a=1", 0);
    assert_eq!(second, fetch_of("/foo", "a=1", "https://example.com/foo?a=1"));
}

#[test]
fn only_status_200_counts_as_success() {
    let statuses: [u16; 8] = [0, 199, 201, 204, 301, 304, 503, u16::MAX];
    for status in statuses {
        let mut cache = cache_of_thirty_seconds();
        let upstream = Upstream::Replied(Response { status, body: vec![1, 2] });
        let reply = handle_upstream_at(&mut cache, key("/foo", ""), upstream, 0);
        assert_eq!(reply, Ok(Response { status, body: vec![1, 2] }));
        assert_eq!(cache.len(), 0);
    }
}

#[test]
fn unsuccessful_response_leaves_an_older_entry_alone() {
    let mut cache = cache_of_thirty_seconds();
    let good = Upstream::Replied(Response { status: 200, body: b"good".to_vec() });
    assert!(handle_upstream_at(&mut cache, key("/foo", ""), good, 0).is_ok());
    let bad = Upstream::Replied(Response { status: 502, body: b"bad".to_vec() });
    let reply = handle_upstream_at(&mut cache, key("/foo", ""), bad, 10 * SECOND);
    assert_eq!(reply, Ok(Response { status: 502, body: b"bad".to_vec() }));
    assert_eq!(cache.get_at(&key("/foo", ""), 29 * SECOND), Some(&b"good".to_vec()));
    assert_eq!(cache.get_at(&key("/foo", ""), 30 * SECOND), None);
}

#[test]
fn later_successful_response_replaces_the_entry() {
    let mut cache = cache_of_thirty_seconds();
    let first = Upstream::Replied(Response { status: 200, body: b"first".to_vec() });
    assert!(handle_upstream_at(&mut cache, key("/foo", ""), first, 0).is_ok());
    let second = Upstream::Replied(Response { status: 200, body: b"second".to_vec() });
    assert!(handle_upstream_at(&mut cache, key("/foo", ""), second, 10 * SECOND).is_ok());
    assert_eq!(cache.len(), 1);
    assert_eq!(
        request_at(&cache, "/foo", "", 39 * SECOND),
        Decision::Respond(Response { status: 200, body: b"second".to_vec() })
    );
}

#[test]
fn transport_failure_is_an_error_and_not_cached() {
    let mut cache = cache_of_thirty_seconds();
    let reply = handle_upstream_at(&mut cache, key("/foo", ""), Upstream::Failed, 0);
    assert_eq!(reply, Err(ForwardError::UpstreamTransportFailure));
    assert_eq!(cache.len(), 0);
    assert_eq!(
        request_at(&cache, "/foo", "", 0),
        fetch_of("/foo", "", "https://example.com/foo")
    );
}

#[test]
fn transport_failure_is_reported_as_bad_gateway() {
    assert_eq!(ForwardError::UpstreamTransportFailure.status(), 502);
}

#[test]
fn empty_body_is_cached_like_any_other() {
    let mut cache = cache_of_thirty_seconds();
    let upstream = Upstream::Replied(Response { status: 200, body: Vec::new() });
    assert_eq!(
        handle_upstream_at(&mut cache, key("/", ""), upstream, 0),
        Ok(Response { status: 200, body: Vec::new() })
    );
    assert_eq!(
        request_at(&cache, "/", "", 1),
        Decision::Respond(Response { status: 200, body: Vec::new() })
    );
}

#[test]
fn a_whole_exchange_by_the_clock() {
    let mut cache: Cache<Request, Vec<u8>> = Cache::new(Duration::from_secs(3600));
    let first = handle_request(&cache, "example.com", "/foo".to_string(), "a=1".to_string());
    let fetch = match first {
        Decision::Fetch(fetch) => fetch,
        Decision::Respond(_) => panic!("an empty cache cannot answer"),
    };
    assert_eq!(fetch.url, "https://example.com/foo?a=1");
    assert_eq!(fetch.key, key("/foo", "a=1"));
    let upstream = Upstream::Replied(Response { status: 200, body: b"hello".to_vec() });
    let reply = handle_upstream(&mut cache, fetch.key, upstream);
    assert_eq!(reply, Ok(Response { status: 200, body: b"hello".to_vec() }));
    let second = handle_request(&cache, "example.com", "/foo".to_string(), "a=1".to_string());
    assert_eq!(second, Decision::Respond(Response { status: 200, body: b"hello".to_vec() }));
}

#[test]
fn failures_by_the_clock_are_not_cached() {
    let mut cache: Cache<Request, Vec<u8>> = Cache::new(Duration::from_secs(3600));
    let not_found = Upstream::Replied(Response { status: 404, body: b"not found".to_vec() });
    assert_eq!(
        handle_upstream(&mut cache, key("/foo", ""), not_found),
        Ok(Response { status: 404, body: b"not found".to_vec() })
    );
    assert_eq!(
        handle_upstream(&mut cache, key("/foo", ""), Upstream::Failed),
        Err(ForwardError::UpstreamTransportFailure)
    );
    assert_eq!(cache.len(), 0);
    assert_eq!(
        handle_request(&cache, "example.com", "/foo".to_string(), String::new()),
        fetch_of("/foo", "", "https://example.com/foo")
    );
}
