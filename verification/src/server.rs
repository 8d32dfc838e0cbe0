//! The server-side cache handler: what it does on either side of a request.
//!
//! Put the handler before the one whose responses are to be cached. A stale response within its
//! `stale-while-revalidate` window is revalidated like any other: this handler does not work in
//! the background.
use std::sync::Arc;
use trillium_http::Headers;
use vstd::prelude::*;

use crate::engine::{
    plan_request, plan_response, policy_views, start, Reply, RequestPlan, RequestState,
    ResponsePlan, Start,
};
use crate::headers::{fields_of, string_view, text_view};
use crate::http::Method;
use crate::options::{default_options, CacheOptions};
use crate::policy::CachePolicy;
use crate::sharing::share;
use crate::time::Timestamp;
use crate::urls::{request_url, url_from_parts};

verus! {

/// The default cap on the body bytes of a response that is stored: 16 MiB.
pub const DEFAULT_MAX_CACHEABLE_SIZE: usize = 16 * 1024 * 1024;

/// A cache handler over a storage backend.
///
/// It is cheap to clone: clones share the backend.
#[derive(Debug)]
pub struct Cache<S> {
    storage: Arc<S>,
    options: CacheOptions,
    max_cacheable_size: usize,
}

/// What a cache handler is made of.
pub struct CacheView<S> {
    pub storage: S,
    pub options: CacheOptions,
    pub max_cacheable_size: usize,
}

impl<S> View for Cache<S> {
    type V = CacheView<S>;

    closed spec fn view(&self) -> CacheView<S> {
        CacheView {
            storage: *self.storage,
            options: self.options,
            max_cacheable_size: self.max_cacheable_size,
        }
    }
}

impl<S> Clone for Cache<S> {
    fn clone(&self) -> (r: Self)
        ensures
            r@ == self@,
    {
        Cache {
            storage: share(&self.storage),
            options: self.options,
            max_cacheable_size: self.max_cacheable_size,
        }
    }
}

impl<S> Cache<S> {
    /// A cache handler with default options and a cap of 16 MiB on stored bodies.
    pub fn new(storage: S) -> (r: Self)
        ensures
            r@.storage == storage,
            r@.options == default_options(),
            r@.max_cacheable_size == DEFAULT_MAX_CACHEABLE_SIZE,
    {
        Cache {
            storage: Arc::new(storage),
            options: CacheOptions::default(),
            max_cacheable_size: DEFAULT_MAX_CACHEABLE_SIZE,
        }
    }

    /// The handler with these options.
    pub fn with_options(self, options: CacheOptions) -> (r: Self)
        ensures
            r@ == (CacheView { options, ..self@ }),
    {
        Cache { storage: self.storage, options, max_cacheable_size: self.max_cacheable_size }
    }

    /// The handler as a *shared cache*, such as a proxy.
    pub fn shared(self) -> (r: Self)
        ensures
            r@ == (CacheView { options: CacheOptions { shared: true, ..self@.options }, ..self@ }),
    {
        let mut options = self.options;
        options.shared = true;
        Cache { storage: self.storage, options, max_cacheable_size: self.max_cacheable_size }
    }

    /// The handler with this cap on the body bytes of a stored response. A longer response passes
    /// through but is not stored.
    pub fn with_max_cacheable_size(self, max: usize) -> (r: Self)
        ensures
            r@ == (CacheView { max_cacheable_size: max, ..self@ }),
    {
        Cache { storage: self.storage, options: self.options, max_cacheable_size: max }
    }

    /// The storage backend.
    pub fn storage(&self) -> (r: &S)
        ensures
            *r == self@.storage,
    {
        &self.storage
    }

    /// The options.
    pub fn options(&self) -> (r: CacheOptions)
        ensures
            r == self@.options,
    {
        self.options
    }

    /// The cap on the body bytes of a stored response.
    pub fn max_cacheable_size(&self) -> (r: usize)
        ensures
            r == self@.max_cacheable_size,
    {
        self.max_cacheable_size
    }

    /// The URL that a request asks for, from its effective scheme, host, path and query. Without
    /// one the request passes through.
    pub fn url_from_conn(secure: bool, host: Option<&str>, path_and_query: &str) -> (r: Option<
        String,
    >)
        ensures
            string_view(r) == request_url(secure, text_view(host), path_and_query@),
    {
        url_from_parts(secure, host, path_and_query)
    }

    /// Decides how a request begins.
    pub fn begin(&self, method: Method, url: &str) -> (r: Start)
        ensures
            r.fits(method, url@),
    {
        start(method, url)
    }

    /// Decides what to do with a request, given the policies of the stored responses under its
    /// key.
    pub fn run(
        &self,
        policies: &Vec<&CachePolicy>,
        request_headers: &Headers,
        now: Timestamp,
    ) -> (r: RequestPlan)
        ensures
            r.fits(policy_views(policies@), fields_of(*request_headers), now@, false),
    {
        plan_request(policies, request_headers, now, false)
    }

    /// Decides what to do with the response of the handler below. The cap on its body is left to
    /// the tee: a length that is declared of it does not count.
    pub fn before_send(
        &self,
        state: &RequestState<'_>,
        reply: &Reply<'_>,
        now: Timestamp,
    ) -> (r: ResponsePlan)
        ensures
            r.fits(*state, *reply, now@, self@.options, u64::MAX),
    {
        plan_response(state, reply, now, self.options, u64::MAX)
    }
}

} // verus!
