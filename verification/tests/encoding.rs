use tower_compress::encoding::Encoding;
use tower_compress::message::HttpRequest;

fn request_with_values(values: &[&str]) -> HttpRequest<()> {
    let mut req = HttpRequest::new(());
    for v in values {
        req.headers.append(b"Accept-Encoding".to_vec(), v.as_bytes().to_vec());
    }
    req
}

#[test]
fn identity_is_none() {
    let req = request_with_values(&["Identity"]);
    assert_eq!(Encoding::from_request(&req), Encoding::Uncompressed)
}

#[test]
fn no_accept_encoding_is_none() {
    let req = HttpRequest::new(());
    assert_eq!(Encoding::from_request(&req), Encoding::Uncompressed)
}

#[test]
fn unrecognizable_is_none() {
    let req = request_with_values(&["inflate"]);
    assert_eq!(Encoding::from_request(&req), Encoding::Uncompressed)
}

#[test]
fn gzip_recognized() {
    let req = request_with_values(&["gzip"]);
    assert_eq!(Encoding::from_request(&req), Encoding::Gzip)
}

#[test]
fn deflate_recognized() {
    let req = request_with_values(&["deflate"]);
    assert_eq!(Encoding::from_request(&req), Encoding::Deflate)
}

#[test]
fn picks_first_encoding() {
    let req = request_with_values(&["gzip", "deflate"]);
    assert_eq!(Encoding::from_request(&req), Encoding::Gzip)
}

#[test]
fn picks_first_recognizable_compressed_encoding() {
    let req = request_with_values(&["inflate", "gzip", "deflate"]);
    assert_eq!(Encoding::from_request(&req), Encoding::Gzip)
}

#[test]
fn header_name_is_case_insensitive() {
    let mut req = HttpRequest::new(());
    req.headers
        .append(b"ACCEPT-ENCODING".to_vec(), b"gzip".to_vec());
    assert_eq!(Encoding::from_request(&req), Encoding::Gzip)
}

#[test]
fn gzip_found_inside_larger_value() {
    let req = request_with_values(&["br, gzip;q=0.8"]);
    assert_eq!(Encoding::from_request(&req), Encoding::Gzip)
}

#[test]
fn value_that_is_not_header_text_is_skipped() {
    let mut req = HttpRequest::new(());
    let mut value = b"gzip".to_vec();
    value.push(0xff);
    req.headers.append(b"Accept-Encoding".to_vec(), value);
    assert_eq!(Encoding::from_request(&req), Encoding::Uncompressed)
}

#[test]
fn other_headers_do_not_negotiate() {
    let mut req = HttpRequest::new(());
    req.headers.append(b"User-Agent".to_vec(), b"gzip".to_vec());
    assert_eq!(Encoding::from_request(&req), Encoding::Uncompressed)
}

#[test]
fn negotiation_is_idempotent() {
    let req = request_with_values(&["inflate", "deflate"]);
    let first = Encoding::from_request(&req);
    let second = Encoding::from_request(&req);
    assert_eq!(first, second);
    assert_eq!(first, Encoding::Deflate)
}

#[test]
fn is_compressed_is_false_only_for_uncompressed() {
    assert!(Encoding::Gzip.is_compressed());
    assert!(Encoding::Deflate.is_compressed());
    assert!(!Encoding::Uncompressed.is_compressed())
}

#[test]
fn header_values_are_canonical() {
    assert_eq!(Encoding::Deflate.header_value(), b"deflate".to_vec());
    assert_eq!(Encoding::Gzip.header_value(), b"gzip".to_vec());
    assert_eq!(Encoding::Uncompressed.header_value(), b"identity".to_vec())
}
