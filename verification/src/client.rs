//! The client-side cache handler: what it does on either side of a request.
//!
//! Put the handler last in the chain of a client's handlers: it is then the last to see a request,
//! so that it can answer it without the network, and the first to see a response, so that it can
//! put a tee into the body before anything else reads it.
use std::sync::Arc;
use trillium_http::Headers;
use vstd::prelude::*;

use crate::engine::{
    handle_revalidation, plan_request, plan_response, policy_views, settles_revalidation, start,
    Reply, RequestPlan, RequestState, ResponsePlan, Start,
};
use crate::headers::fields_of;
use crate::http::{Method, Status};
use crate::options::{default_options, CacheOptions};
use crate::policy::CachePolicy;
use crate::sharing::share;
use crate::time::Timestamp;

verus! {

/// The default cap on the body bytes of a response that is stored: 16 MiB.
pub const DEFAULT_MAX_CACHEABLE_SIZE: u64 = 16 * 1024 * 1024;

/// A cache handler over a storage backend.
///
/// It is cheap to clone: clones share the backend.
#[derive(Debug)]
pub struct Cache<S> {
    storage: Arc<S>,
    options: CacheOptions,
    max_cacheable_size: u64,
}

/// What a cache handler is made of.
pub struct CacheView<S> {
    pub storage: S,
    pub options: CacheOptions,
    pub max_cacheable_size: u64,
}

impl<S> View for Cache<S> {
    type V = CacheView<S>;

    closed spec fn view(&self) -> CacheView<S> {
        CacheView {
            storage: *self.storage,
            options: self.options,
            max_cacheable_size: self.max_cacheable_size,
        }
    }
}

impl<S> Clone for Cache<S> {
    fn clone(&self) -> (r: Self)
        ensures
            r@ == self@,
    {
        Cache {
            storage: share(&self.storage),
            options: self.options,
            max_cacheable_size: self.max_cacheable_size,
        }
    }
}

impl<S> Cache<S> {
    /// A cache handler with default options and a cap of 16 MiB on stored bodies.
    pub fn new(storage: S) -> (r: Self)
        ensures
            r@.storage == storage,
            r@.options == default_options(),
            r@.max_cacheable_size == DEFAULT_MAX_CACHEABLE_SIZE,
    {
        Cache {
            storage: Arc::new(storage),
            options: CacheOptions::default(),
            max_cacheable_size: DEFAULT_MAX_CACHEABLE_SIZE,
        }
    }

    /// The handler with these options.
    pub fn with_options(self, options: CacheOptions) -> (r: Self)
        ensures
            r@ == (CacheView { options, ..self@ }),
    {
        Cache { storage: self.storage, options, max_cacheable_size: self.max_cacheable_size }
    }

    /// The handler as a *shared cache*, such as a proxy.
    pub fn shared(self) -> (r: Self)
        ensures
            r@ == (CacheView { options: CacheOptions { shared: true, ..self@.options }, ..self@ }),
    {
        let mut options = self.options;
        options.shared = true;
        Cache { storage: self.storage, options, max_cacheable_size: self.max_cacheable_size }
    }

    /// The handler with this cap on the body bytes of a stored response. A longer response passes
    /// through but is not stored.
    pub fn with_max_cacheable_size(self, max: u64) -> (r: Self)
        ensures
            r@ == (CacheView { max_cacheable_size: max, ..self@ }),
    {
        Cache { storage: self.storage, options: self.options, max_cacheable_size: max }
    }

    /// The storage backend.
    pub fn storage(&self) -> (r: &S)
        ensures
            *r == self@.storage,
    {
        &self.storage
    }

    /// The options.
    pub fn options(&self) -> (r: CacheOptions)
        ensures
            r == self@.options,
    {
        self.options
    }

    /// The cap on the body bytes of a stored response.
    pub fn max_cacheable_size(&self) -> (r: u64)
        ensures
            r == self@.max_cacheable_size,
    {
        self.max_cacheable_size
    }

    /// Decides how a request begins.
    pub fn begin(&self, method: Method, url: &str) -> (r: Start)
        ensures
            r.fits(method, url@),
    {
        start(method, url)
    }

    /// Decides what to do with a request, given the policies of the stored responses under its
    /// key. A response within its `stale-while-revalidate` window is served at once.
    pub fn run(
        &self,
        policies: &Vec<&CachePolicy>,
        request_headers: &Headers,
        now: Timestamp,
    ) -> (r: RequestPlan)
        ensures
            r.fits(policy_views(policies@), fields_of(*request_headers), now@, true),
    {
        plan_request(policies, request_headers, now, true)
    }

    /// Decides what to do with a reply.
    pub fn after_response(
        &self,
        state: &RequestState<'_>,
        reply: &Reply<'_>,
        now: Timestamp,
    ) -> (r: ResponsePlan)
        ensures
            r.fits(*state, *reply, now@, self@.options, self@.max_cacheable_size),
    {
        plan_response(state, reply, now, self.options, self.max_cacheable_size)
    }

    /// Decides what to do with the answer to a background revalidation. The cap on its body is
    /// left to the copying.
    pub fn background_revalidation(
        &self,
        stored: &CachePolicy,
        reply: &Reply<'_>,
        status: Status,
        now: Timestamp,
    ) -> (r: ResponsePlan)
        ensures
            settles_revalidation(r, stored@, *reply, status, now@, self@.options, u64::MAX),
    {
        handle_revalidation(stored, reply, status, now, self.options, u64::MAX)
    }
}

} // verus!
