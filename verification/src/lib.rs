//! The core of a caching reverse proxy: it answers GET requests from a cache
//! of successful upstream responses, each of which is served for a fixed time
//! to live and fetched again after that.
//!
//! - [`request`]: the key that identifies a request, path and query string.
//! - [`model`]: what a cache holds, as a mathematical map, and the laws of
//!   storing, reading and sweeping.
//! - [`cache`]: the cache itself.
//! - [`forward`]: the policy that decides when the cache answers, when
//!   upstream is asked and what is cached.
//! - [`clock`]: what is assumed of the standard library's clock.
//!
//! The library makes no network call and takes no lock. A server hands it
//! the path and query string of each request and the outcome of each fetch,
//! and shares the cache among its handlers behind a lock of its own.

pub mod cache;
pub mod clock;
pub mod forward;
pub mod model;
pub mod request;

pub use cache::Cache;
pub use request::Request;
