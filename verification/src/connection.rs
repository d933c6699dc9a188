//! The seal for the HTTP-aware connection-creator abstraction.

use vstd::prelude::*;

verus! {

/// Seals a connection-creator trait alias: a crate that declares such
/// an alias bounds it by this trait and provides the only impls, so
/// other crates cannot implement the alias directly.
pub trait Sealed<Target> {

}

} // verus!
