//! The compression middleware and its per-request computation.

use crate::encoder::Encoder;
use crate::encoder::matches_encoded;
use crate::encoding::Encoding;
use crate::encoding::content_encoding_bytes;
use crate::encoding::spec_content_encoding;
use crate::encoding::spec_negotiate;
use crate::error::Error;
use crate::header::insert_spec;
use crate::message::HttpRequest;
use crate::message::HttpResponse;
use crate::service::Async;
use crate::service::Future;
use crate::service::Service;
use vstd::prelude::*;

verus! {

/// Compression configuration, supplied when the middleware is built and
/// copied into each per-request computation.  The library always runs
/// its compression backend with the backend's default level and
/// strategy, which this value stands for.
#[derive(Clone, Copy, Debug, PartialEq, Eq, Structural)]
pub struct CompressionOptions;

impl Default for CompressionOptions {
    fn default() -> (r: Self)
        ensures
            r == CompressionOptions,
    {
        CompressionOptions
    }
}

/// Constructs `Compress` instances.
#[derive(Clone, Debug)]
pub struct Builder {
    options: CompressionOptions,
}

impl Builder {
    /// The options a built middleware will carry.
    pub closed spec fn spec_options(self) -> CompressionOptions {
        self.options
    }
}

impl Default for Builder {
    fn default() -> (r: Self)
        ensures
            r.spec_options() == CompressionOptions,
    {
        Builder { options: CompressionOptions }
    }
}

/// A service that compresses the response of the wrapped service.
#[derive(Clone, Debug)]
pub struct Compress<T> {
    inner: T,
    options: CompressionOptions,
}

/// The pending computation for one request: the wrapped service's own
/// pending computation, the encoding negotiated when the request was
/// accepted, and a copy of the middleware's options.
#[derive(Clone, Debug)]
pub struct CompressFuture<T> {
    inner: T,
    encoding: Encoding,
    options: CompressionOptions,
}

impl<T> Compress<T> {
    /// The wrapped service.
    pub closed spec fn spec_inner(self) -> T {
        self.inner
    }

    /// The options every request's computation is given.
    pub closed spec fn spec_options(self) -> CompressionOptions {
        self.options
    }

    /// Wraps a service, with default compression options.
    pub fn new(inner: T) -> (c: Self)
        ensures
            c.spec_inner() == inner,
            c.spec_options() == CompressionOptions,
    {
        Compress { inner, options: CompressionOptions::default() }
    }

    /// Returns a reference to the inner service.
    pub fn get_ref(&self) -> (r: &T)
        ensures
            *r == self.spec_inner(),
    {
        &self.inner
    }

    /// Returns a mutable reference to the inner service.
    pub fn get_mut(&mut self) -> (r: &mut T)
        ensures
            *r == old(self).spec_inner(),
            final(self).spec_inner() == *final(r),
            final(self).spec_options() == old(self).spec_options(),
    {
        &mut self.inner
    }

    /// Consumes `self`, returning the inner service.
    pub fn into_inner(self) -> (r: T)
        ensures
            r == self.spec_inner(),
    {
        self.inner
    }
}

/// What the body transform yields for a response.  It always
/// succeeds: the encoders write into in-memory buffers, which cannot
/// fail, so a `Write` or `Finish` error — the tags reserved for a
/// failure of the write phase and of finalization — never arises.  The
/// status is kept, the body becomes the encoded form of the old body,
/// and for a compressed encoding the content-encoding header is set to
/// that encoding's canonical value.
pub open spec fn transform_post<E>(
    enc: Encoding,
    resp: HttpResponse<Vec<u8>>,
    r: Result<HttpResponse<Vec<u8>>, Error<E>>,
) -> bool {
    match r {
        Ok(out) => {
            &&& out.status == resp.status
            &&& matches_encoded(enc, resp.body@, out.body@)
            &&& out.headers@ == if enc.spec_is_compressed() {
                insert_spec(resp.headers@, spec_content_encoding(), enc.spec_header_value())
            } else {
                resp.headers@
            }
        },
        Err(_) => false,
    }
}

/// What one poll step of the computation yields, given the outcome
/// `step` of polling the wrapped computation: an inner failure passes
/// through unchanged as `Inner` with no transform attempted, a pending
/// inner computation leaves this one pending, and a finished response
/// is always transformed to completion and yielded.
pub open spec fn step_post<E>(
    enc: Encoding,
    step: Result<Async<HttpResponse<Vec<u8>>>, E>,
    r: Result<Async<HttpResponse<Vec<u8>>>, Error<E>>,
) -> bool {
    match step {
        Err(e) => r == Err::<Async<HttpResponse<Vec<u8>>>, Error<E>>(Error::Inner(e)),
        Ok(Async::NotReady) => r == Ok::<Async<HttpResponse<Vec<u8>>>, Error<E>>(Async::NotReady),
        Ok(Async::Ready(resp)) => match r {
            Ok(Async::Ready(out)) => transform_post::<E>(enc, resp, Ok(out)),
            _ => false,
        },
    }
}

impl<T> CompressFuture<T> {
    /// The encoding negotiated for this computation's request.
    pub closed spec fn spec_encoding(self) -> Encoding {
        self.encoding
    }

    /// The computation's copy of the middleware's options.
    pub closed spec fn spec_options(self) -> CompressionOptions {
        self.options
    }

    /// The wrapped pending computation.
    pub closed spec fn spec_inner(self) -> T {
        self.inner
    }

    /// A fresh encoder for the negotiated encoding, over a buffer with
    /// the given initial capacity.
    fn make_encoder(&self, capacity: usize) -> (r: Encoder)
        ensures
            r.spec_encoding() == self.spec_encoding(),
            r.fed() == Seq::<u8>::empty(),
            r.clean(),
    {
        Encoder::new(self.encoding, capacity)
    }

    /// Phase two of the computation, run once the wrapped service's
    /// response is in hand: reserve a buffer sized by a compression
    /// heuristic, set the content-encoding header when the encoding is
    /// compressed, feed the whole body through the matching encoder and
    /// finalize it, yielding the response with the encoded body.  Over
    /// in-memory buffers this never fails, though the error variants
    /// keep their places for sinks that can.
    pub fn transform<E>(&self, resp: HttpResponse<Vec<u8>>) -> (r: Result<
        HttpResponse<Vec<u8>>,
        Error<E>,
    >)
        ensures
            transform_post::<E>(self.spec_encoding(), resp, r),
    {
        let HttpResponse { status, mut headers, body } = resp;
        let capacity = if self.encoding.is_compressed() {
            headers.insert(content_encoding_bytes(), self.encoding.header_value());
            body.len() / 3
        } else {
            body.len()
        };
        let mut encoder = self.make_encoder(capacity);
        match encoder.write_all(body.as_slice()) {
            Ok(_) => {},
            Err(e) => {
                return Err(Error::Write(e));
            },
        }
        proof {
            assert(Seq::<u8>::empty() + body@ =~= body@);
        }
        match encoder.finish() {
            Ok(out) => Ok(HttpResponse { status, headers, body: out }),
            Err(e) => Err(Error::Finish(e)),
        }
    }

    /// Advances the computation by one step, given the outcome of one
    /// poll of the wrapped pending computation.
    pub fn complete<E>(&self, step: Result<Async<HttpResponse<Vec<u8>>>, E>) -> (r: Result<
        Async<HttpResponse<Vec<u8>>>,
        Error<E>,
    >)
        ensures
            step_post::<E>(self.spec_encoding(), step, r),
    {
        match step {
            Err(e) => Err(Error::Inner(e)),
            Ok(Async::NotReady) => Ok(Async::NotReady),
            Ok(Async::Ready(resp)) => match self.transform(resp) {
                Ok(out) => Ok(Async::Ready(out)),
                Err(e) => Err(e),
            },
        }
    }
}

impl<T, A> Service for Compress<T> where
    T: Service<Request = HttpRequest<A>, Response = HttpResponse<Vec<u8>>>,
 {
    type Request = T::Request;

    type Response = HttpResponse<Vec<u8>>;

    type Error = Error<T::Error>;

    type Future = CompressFuture<T::Future>;

    /// Readiness is delegated to the wrapped service; the middleware
    /// never refuses readiness on its own, and a failure is wrapped as
    /// `Inner` unchanged.
    fn poll_ready(&mut self) -> (r: Result<Async<()>, Error<T::Error>>)
        ensures
            r matches Err(e) ==> e is Inner,
    {
        match self.inner.poll_ready() {
            Ok(a) => Ok(a),
            Err(e) => Err(Error::Inner(e)),
        }
    }

    /// Negotiates the encoding from the request's headers, hands the
    /// untouched request to the wrapped service, and bundles its pending
    /// computation with the encoding and a copy of the options.  The
    /// encoding is fixed here, before the wrapped service runs, and is
    /// never re-evaluated.
    fn call(&mut self, req: T::Request) -> (r: CompressFuture<T::Future>)
        ensures
            r.spec_encoding() == spec_negotiate(req.headers@),
            r.spec_options() == old(self).spec_options(),
            final(self).spec_options() == old(self).spec_options(),
    {
        let encoding = Encoding::from_request(&req);
        let inner = self.inner.call(req);
        CompressFuture { inner, options: self.options, encoding }
    }
}

impl<T> Future for CompressFuture<T> where T: Future<Item = HttpResponse<Vec<u8>>> {
    type Item = HttpResponse<Vec<u8>>;

    type Error = Error<T::Error>;

    /// Polls the wrapped computation; while it is pending so is this
    /// one, its failure completes this computation as `Inner`, and its
    /// response is transformed synchronously within the same poll.
    fn poll(&mut self) -> (r: Result<Async<HttpResponse<Vec<u8>>>, Error<T::Error>>)
        ensures
            exists|step: Result<Async<HttpResponse<Vec<u8>>>, T::Error>|
                step_post::<T::Error>(old(self).spec_encoding(), step, r),
            final(self).spec_encoding() == old(self).spec_encoding(),
            final(self).spec_options() == old(self).spec_options(),
    {
        let step = self.inner.poll();
        let ghost gstep = step;
        let r = self.complete(step);
        proof {
            assert(step_post::<T::Error>(old(self).spec_encoding(), gstep, r));
        }
        r
    }
}

} // verus!
