//! The middleware's error model.

use vstd::prelude::*;

verus! {

/// Declares `std::io::Error` so values of it can be carried through;
/// the type stays opaque.
#[verifier::external_type_specification]
#[verifier::external_body]
pub struct ExIoError(std::io::Error);

/// What can go wrong while producing a compressed response.  The three
/// kinds are never conflated: a caller can always tell a failure of the
/// wrapped service from a failure of compression itself.
#[derive(Debug)]
pub enum Error<T> {
    /// The wrapped service failed; its error value is carried unchanged.
    Inner(T),
    /// An I/O failure while writing body bytes into the encoder.
    Write(std::io::Error),
    /// An I/O failure while finalizing the encoder's trailer/checksum.
    Finish(std::io::Error),
}

} // verus!
