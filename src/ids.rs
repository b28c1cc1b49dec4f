//! Fresh ids from the ULID generator.

use vstd::prelude::*;

verus! {

/// Relies on `ulid::Ulid::new`: a ULID built from the current time and random
/// bits, handed back as its 128-bit value. Nothing is known of the value: the
/// list that takes it checks it against the ids it has issued.
#[verifier::external_body]
pub(crate) fn generate_ulid() -> (r: u128) {
    ulid::Ulid::new().0
}

} // verus!
