//! The service contract the middleware decorates and itself implements.

use vstd::prelude::*;

verus! {

/// The state of a pending computation when polled: a finished value, or
/// not ready yet, in which case it must be polled again later.
pub enum Async<T> {
    Ready(T),
    NotReady,
}

/// A pending computation: each poll yields the finished item, reports
/// that it is not ready yet, or fails with a terminal error.
pub trait Future {
    type Item;

    type Error;

    /// Drives the computation one step.
    fn poll(&mut self) -> Result<Async<Self::Item>, Self::Error>;
}

/// An asynchronous request/response handler: it reports readiness to
/// accept work, and turns a request into a pending computation that
/// eventually yields a response or an error.
pub trait Service {
    type Request;

    type Response;

    type Error;

    type Future: Future<Item = Self::Response, Error = Self::Error>;

    /// Whether the service can accept another request.
    fn poll_ready(&mut self) -> Result<Async<()>, Self::Error>;

    /// Dispatches a request, returning the pending computation for its
    /// response; it must not block.
    fn call(&mut self, req: Self::Request) -> Self::Future;
}

} // verus!
