//! The moments at which things happen.
//!
//! A moment is an `Instant` of the `instant` crate. The library reads the
//! clock here and nowhere else; what it decides from a moment, it decides in
//! functions that take the moment as an argument.

use vstd::prelude::*;

verus! {

/// `instant::Instant`, a moment of a clock that never runs backwards.
/// Nothing inside it is seen here.
#[verifier::external_type_specification]
#[verifier::external_body]
pub struct ExInstant(instant::Instant);

/// `instant::Instant::now`: the present moment. Nothing is claimed of it.
#[verifier::external_body]
pub(crate) fn current_instant() -> (now: instant::Instant) {
    instant::Instant::now()
}

/// `Instant::elapsed` and `Duration::as_nanos`: the nanoseconds that have
/// passed since `since`. Nothing is claimed of their number.
#[verifier::external_body]
pub(crate) fn elapsed_nanos(since: &instant::Instant) -> (nanos: u128) {
    since.elapsed().as_nanos()
}

} // verus!
