//! The middleware for actix-web, attached to an app as a transform.

use vstd::prelude::*;

use crate::carrier::HttpHeaderProvider;
use crate::http_injector::extracted;
use crate::middleware::lifecycle::{begin_request, forward_readiness, Readiness, RequestTrace, SpanPhase};

verus! {

/// Wraps a service so that each request runs in a span parented to the
/// context its headers carry. It does not log requests.
pub struct TraceLayer;

impl TraceLayer {
    pub fn new_transform<S>(&self, service: S) -> (r: TraceService<S>)
        ensures
            r.inner() == service,
    {
        TraceService { service }
    }
}

/// A service wrapped by [`TraceLayer`].
pub struct TraceService<S> {
    service: S,
}

impl<S> TraceService<S> {
    pub closed spec fn inner(&self) -> S {
        self.service
    }

    pub fn get_ref(&self) -> (r: &S)
        ensures
            *r == self.inner(),
    {
        &self.service
    }

    pub fn get_mut(&mut self) -> (r: &mut S)
        ensures
            *r == old(self).inner(),
            final(self).inner() == *final(r),
    {
        &mut self.service
    }

    pub fn into_inner(self) -> (r: S)
        ensures
            r == self.inner(),
    {
        self.service
    }

    /// Ready exactly when the wrapped service is.
    pub fn poll_ready<E>(&self, inner: Readiness<E>) -> (r: Readiness<E>)
        ensures
            r == inner,
    {
        forward_readiness(inner)
    }

    /// Extraction for one request, before the wrapped service is called.
    pub fn call<T: HttpHeaderProvider>(&self, request: &T) -> (r: RequestTrace)
        ensures
            extracted(r.parent, request),
            r.lifecycle.phase() == SpanPhase::Created,
    {
        begin_request(request)
    }
}

} // verus!
