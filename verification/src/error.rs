//! The error type that runs through the mirroring path.
use vstd::prelude::*;

verus! {

/// `anyhow::Error`, carried through verified code as an opaque value.
#[verifier::external_type_specification]
#[verifier::external_body]
pub struct ExAnyhowError(anyhow::Error);

/// Wraps `error` in the context message `message`, through
/// `anyhow::Error::context`.
///
/// The contract states nothing of the result: the error is opaque here.
/// Per anyhow's documentation the wrapped error displays as `message`
/// and keeps `error` as its source; that is not stated.
#[verifier::external_body]
pub(crate) fn with_context(error: anyhow::Error, message: &'static str) -> (wrapped: anyhow::Error) {
    error.context(message)
}

} // verus!
