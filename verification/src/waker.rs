//! Trusted view of `std::task::Waker`.
//!
//! A waker is the one-shot notification capability the queue carries. Verus
//! treats it as an opaque value: the queue stores it, hands it around, and
//! finally consumes it by calling `wake` exactly once.

use vstd::prelude::*;

verus! {

/// Declares `std::task::Waker` so that it can stand in signatures, fields
/// and sequences. The value is opaque: nothing about its inside is assumed.
#[verifier::external_type_specification]
#[verifier::external_body]
pub struct ExWaker(core::task::Waker);

/// Relies on `std::task::Waker::wake`, which consumes the waker and delivers
/// its one-shot notification. Nothing is assumed about the delivery itself,
/// so no `ensures` is stated.
pub assume_specification[ core::task::Waker::wake ](w: core::task::Waker);

} // verus!
