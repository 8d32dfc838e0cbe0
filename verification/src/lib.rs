//! An HTTP cache engine, in two handler forms that share it.
//!
//! A [`client::Cache`] sits on an HTTP client. Marked as shared, on the client that a proxy uses to
//! reach its upstream, it makes the proxy a shared cache in front of that origin; on any other
//! client it is a user agent's cache. A [`Cache`] sits in front of a server's handler and caches
//! the handler's own responses.
//!
//! The engine decides and leaves input and output to its surroundings:
//!
//! - [`policy`] keeps what matters of an exchange; [`storability`] says which exchanges may be
//!   stored, [`freshness`] how long a stored response is fresh and when it may be served stale, and
//!   [`validation`] what a stored response has to say to a request, and what the origin's answer to
//!   a revalidation means;
//! - [`engine`] puts these together into plans for a request and for a reply, which the handlers
//!   carry out;
//! - [`memory`], [`fs`] and [`tiered`] are what the storage backends go by, and [`tee`] is how a
//!   body is stored while it is read;
//! - [`laws`] holds what is proved of all of this together.
pub mod client;
pub mod dates;
pub mod directives;
pub mod engine;
pub mod etag;
pub mod freshness;
pub mod fs;
pub mod hashing;
pub mod headers;
pub mod http;
pub mod laws;
pub mod limits;
pub mod memory;
pub mod options;
pub mod policy;
pub mod ratio;
pub mod server;
mod sharing;
pub mod storability;
pub mod storage;
pub mod structured;
pub mod tee;
pub mod text;
pub mod tiered;
pub mod time;
pub mod urls;
pub mod validation;

pub use memory::{InMemoryEntry, InMemoryPutHandle, InMemoryStorage};
pub use options::CacheOptions;
pub use policy::CachePolicy;
pub use server::Cache;
pub use storage::CacheKey;
