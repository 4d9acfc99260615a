//! Generation of unique identifiers.

use vstd::prelude::*;

verus! {

/// Relies on uuid's `Uuid::new_v4`: a freshly generated random
/// identifier, rendered in its canonical text form. The value is random;
/// nothing is assumed of it. Callers that need two events to share an
/// identifier store the returned string and reuse it.
#[verifier::external_body]
pub(crate) fn fresh_uuid() -> (r: String) {
    uuid::Uuid::new_v4().to_string()
}

} // verus!
