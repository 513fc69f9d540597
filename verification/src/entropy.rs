//! The system random source, as far as the interpreter relies on it.

use vstd::prelude::*;

verus! {

/// The error type of the `getrandom` crate, carried through unopened.
#[verifier::external_type_specification]
#[verifier::external_body]
pub struct ExEntropyError(getrandom::Error);

/// `getrandom::u32` asks the operating system for 32 random bits. It either
/// yields them or reports why it could not; nothing is promised about which
/// of the two happens, nor about the bits.
pub assume_specification[ getrandom::u32 ]() -> (answer: Result<u32, getrandom::Error>);

} // verus!
