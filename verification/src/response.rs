//! The value a web layer sends as a Turbo Stream response body.
//!
//! A transport adapter that delivers a [`TurboStream`] must set the response
//! content type to `text/vnd.turbo-stream.html` unconditionally and hand the
//! inner value on unaltered; the adapter itself lives outside this crate.

use vstd::prelude::*;

verus! {

/// A Hotwire Turbo Stream response body, wrapping a fragment string or any
/// other body value.
#[derive(Clone, Copy, Debug)]
#[must_use]
pub struct TurboStream<T>(pub T);

impl<T> From<T> for TurboStream<T> {
    fn from(inner: T) -> (r: Self) {
        TurboStream(inner)
    }
}

impl<T> vstd::std_specs::convert::FromSpecImpl<T> for TurboStream<T> {
    open spec fn obeys_from_spec() -> bool {
        true
    }

    open spec fn from_spec(inner: T) -> Self {
        TurboStream(inner)
    }
}

} // verus!
