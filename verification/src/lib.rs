//! Response-compression middleware.
//!
//! `Compress` wraps a service and rewrites each response body into the
//! encoding the request negotiated through its `Accept-Encoding` header,
//! setting the `Content-Encoding` header accordingly.

pub mod compress;
pub mod connection;
pub mod encoder;
pub mod encoding;
pub mod error;
pub mod header;
pub mod message;
pub mod service;

pub use compress::Builder;
pub use compress::Compress;
pub use compress::CompressFuture;
pub use error::Error;
