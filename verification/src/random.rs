//! The source of random bytes.

use vstd::prelude::*;

verus! {

/// Draws a byte from the thread-local generator of the `rand` crate, by
/// `rand::random`. Nothing is claimed of the byte: any value may come back,
/// and two calls may differ. The call panics if the operating system cannot
/// seed the generator when a thread first uses it.
#[verifier::external_body]
pub(crate) fn random_byte() -> (byte: u8) {
    rand::random::<u8>()
}

} // verus!
