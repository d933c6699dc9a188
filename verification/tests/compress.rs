use std::io::Read;

use tower_compress::Compress;
use tower_compress::Error;
use tower_compress::message::HttpRequest;
use tower_compress::message::HttpResponse;
use tower_compress::service::Async;
use tower_compress::service::Future;
use tower_compress::service::Service;

/// A canned pending computation: optionally not ready on the first
/// poll, then a fixed response or a fixed failure.
struct MockFuture {
    pending_polls: usize,
    outcome: Option<Result<HttpResponse<Vec<u8>>, String>>,
}

impl Future for MockFuture {
    type Item = HttpResponse<Vec<u8>>;
    type Error = String;

    fn poll(&mut self) -> Result<Async<HttpResponse<Vec<u8>>>, String> {
        if self.pending_polls > 0 {
            self.pending_polls -= 1;
            return Ok(Async::NotReady);
        }
        match self.outcome.take().expect("polled after completion") {
            Ok(resp) => Ok(Async::Ready(resp)),
            Err(e) => Err(e),
        }
    }
}

/// A canned service that answers every request the same way.
struct MockService {
    status: u16,
    body: Vec<u8>,
    fail: Option<String>,
    pending_polls: usize,
    ready: bool,
}

impl MockService {
    fn respond_with(status: u16, body: &[u8]) -> MockService {
        MockService {
            status,
            body: body.to_vec(),
            fail: None,
            pending_polls: 0,
            ready: true,
        }
    }
}

impl Service for MockService {
    type Request = HttpRequest<()>;
    type Response = HttpResponse<Vec<u8>>;
    type Error = String;
    type Future = MockFuture;

    fn poll_ready(&mut self) -> Result<Async<()>, String> {
        if self.ready {
            Ok(Async::Ready(()))
        } else {
            Err("not ready".to_string())
        }
    }

    fn call(&mut self, _req: HttpRequest<()>) -> MockFuture {
        let outcome = match &self.fail {
            Some(e) => Err(e.clone()),
            None => Ok(HttpResponse::new(self.status, self.body.clone())),
        };
        MockFuture {
            pending_polls: self.pending_polls,
            outcome: Some(outcome),
        }
    }
}

fn request_accepting(token: &[u8]) -> HttpRequest<()> {
    let mut request = HttpRequest::new(());
    request
        .headers
        .append(b"Accept-Encoding".to_vec(), token.to_vec());
    request
}

fn wait(mut future: impl Future<Item = HttpResponse<Vec<u8>>, Error = Error<String>>) -> Result<HttpResponse<Vec<u8>>, Error<String>> {
    loop {
        match future.poll() {
            Ok(Async::Ready(resp)) => return Ok(resp),
            Ok(Async::NotReady) => continue,
            Err(e) => return Err(e),
        }
    }
}

fn content_encodings(resp: &HttpResponse<Vec<u8>>) -> Vec<Vec<u8>> {
    resp.headers.get_all(b"Content-Encoding")
}

#[test]
fn deflates_requests() {
    let mock = MockService::respond_with(200, b"hello deflated world!");
    let mut compress = Compress::new(mock);

    let request = request_accepting(b"deflate");
    let response_future = compress.call(request);

    let response = wait(response_future).expect("response future");

    assert_eq!(200, response.status);
    assert!(content_encodings(&response)
        .iter()
        .any(|v| v.as_slice() == b"deflate"));

    let body_reader = std::io::Cursor::new(response.body);
    let mut decoder = flate2::read::DeflateDecoder::new(body_reader);
    let mut decompressed_body = String::new();
    decoder
        .read_to_string(&mut decompressed_body)
        .expect("decompress");

    assert_eq!("hello deflated world!", &decompressed_body)
}

#[test]
fn gzips_requests() {
    let mock = MockService::respond_with(200, b"hello gzipped world!");
    let mut compress = Compress::new(mock);

    let request = request_accepting(b"gzip");
    let response_future = compress.call(request);

    let response = wait(response_future).expect("response future");

    assert_eq!(200, response.status);
    assert!(content_encodings(&response)
        .iter()
        .any(|v| v.as_slice() == b"gzip"));

    let body_reader = std::io::Cursor::new(response.body);
    let mut decoder = flate2::read::GzDecoder::new(body_reader);
    let mut decompressed_body = String::new();
    decoder
        .read_to_string(&mut decompressed_body)
        .expect("decompress");

    assert_eq!("hello gzipped world!", &decompressed_body)
}

#[test]
fn unnegotiated_body_is_unchanged() {
    let mock = MockService::respond_with(204, b"plain text body");
    let mut compress = Compress::new(mock);

    let request = HttpRequest::new(());
    let response = wait(compress.call(request)).expect("response future");

    assert_eq!(204, response.status);
    assert_eq!(response.body, b"plain text body".to_vec());
    assert!(content_encodings(&response).is_empty())
}

#[test]
fn round_trips_empty_bodies() {
    for token in [&b"gzip"[..], &b"deflate"[..]] {
        let mock = MockService::respond_with(200, b"");
        let mut compress = Compress::new(mock);
        let response = wait(compress.call(request_accepting(token))).expect("response future");
        let reader = std::io::Cursor::new(response.body);
        let mut decompressed: Vec<u8> = Vec::new();
        if token == b"gzip" {
            flate2::read::GzDecoder::new(reader)
                .read_to_end(&mut decompressed)
                .expect("decompress");
        } else {
            flate2::read::DeflateDecoder::new(reader)
                .read_to_end(&mut decompressed)
                .expect("decompress");
        }
        assert!(decompressed.is_empty())
    }
}

#[test]
fn round_trips_binary_bodies() {
    let body: Vec<u8> = (0..=255u8).cycle().take(4096).collect();
    let mock = MockService::respond_with(200, &body);
    let mut compress = Compress::new(mock);
    let response = wait(compress.call(request_accepting(b"gzip"))).expect("response future");
    let reader = std::io::Cursor::new(response.body);
    let mut decompressed: Vec<u8> = Vec::new();
    flate2::read::GzDecoder::new(reader)
        .read_to_end(&mut decompressed)
        .expect("decompress");
    assert_eq!(decompressed, body)
}

#[test]
fn inner_failure_passes_through_untouched() {
    let mut mock = MockService::respond_with(200, b"never sent");
    mock.fail = Some("handler exploded".to_string());
    let mut compress = Compress::new(mock);

    let request = request_accepting(b"gzip");
    match wait(compress.call(request)) {
        Err(Error::Inner(msg)) => assert_eq!(msg, "handler exploded"),
        Err(_) => panic!("wrong error kind"),
        Ok(_) => panic!("expected a failure"),
    }
}

#[test]
fn pending_inner_computation_keeps_future_pending() {
    let mut mock = MockService::respond_with(200, b"late body");
    mock.pending_polls = 2;
    let mut compress = Compress::new(mock);

    let mut future = compress.call(request_accepting(b"deflate"));
    assert!(matches!(future.poll(), Ok(Async::NotReady)));
    assert!(matches!(future.poll(), Ok(Async::NotReady)));
    let response = match future.poll() {
        Ok(Async::Ready(resp)) => resp,
        _ => panic!("expected the response on the third poll"),
    };
    let reader = std::io::Cursor::new(response.body);
    let mut decompressed = String::new();
    flate2::read::DeflateDecoder::new(reader)
        .read_to_string(&mut decompressed)
        .expect("decompress");
    assert_eq!("late body", &decompressed)
}

#[test]
fn readiness_is_delegated() {
    let mut compress = Compress::new(MockService::respond_with(200, b""));
    assert!(matches!(compress.poll_ready(), Ok(Async::Ready(()))));

    let mut refusing = MockService::respond_with(200, b"");
    refusing.ready = false;
    let mut compress = Compress::new(refusing);
    match compress.poll_ready() {
        Err(Error::Inner(msg)) => assert_eq!(msg, "not ready"),
        _ => panic!("expected the wrapped error"),
    }
}

#[test]
fn accessors_reach_the_wrapped_service() {
    let mut compress = Compress::new(MockService::respond_with(418, b"tea"));
    assert_eq!(compress.get_ref().status, 418);
    compress.get_mut().status = 503;
    let inner = compress.into_inner();
    assert_eq!(inner.status, 503)
}

/// A service whose response already carries a content-encoding header.
struct Premarked;

impl Service for Premarked {
    type Request = HttpRequest<()>;
    type Response = HttpResponse<Vec<u8>>;
    type Error = String;
    type Future = MockFuture;

    fn poll_ready(&mut self) -> Result<Async<()>, String> {
        Ok(Async::Ready(()))
    }

    fn call(&mut self, _req: HttpRequest<()>) -> MockFuture {
        let mut resp = HttpResponse::new(200, b"premarked".to_vec());
        resp.headers
            .append(b"Content-Encoding".to_vec(), b"identity".to_vec());
        MockFuture {
            pending_polls: 0,
            outcome: Some(Ok(resp)),
        }
    }
}

#[test]
fn content_encoding_header_is_replaced_not_repeated() {
    let mut compress = Compress::new(Premarked);
    let response = wait(compress.call(request_accepting(b"gzip"))).expect("response future");
    let encodings = content_encodings(&response);
    assert_eq!(encodings.len(), 1);
    assert_eq!(encodings[0], b"gzip".to_vec())
}

#[test]
fn builder_and_options_construct() {
    let builder = tower_compress::Builder::default();
    let options = tower_compress::compress::CompressionOptions::default();
    assert_eq!(options, tower_compress::compress::CompressionOptions);
    assert!(format!("{:?}", builder).contains("Builder"))
}
