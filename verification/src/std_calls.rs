//! The calls into the standard library that the verifier knows nothing of.
//!
//! Each item here is believed as it stands. A reader who wants to know what
//! the proofs of this library rest on finds it here, in `unerase_in_drop`
//! beside the trait of the erasable pointers, and in `call_guarded` beside
//! the thin pointers.

use vstd::prelude::*;
use core::fmt::{Debug, Error, Formatter};
use core::hash::{Hash, Hasher};

verus! {

/// `core::fmt::Formatter`, of which nothing is known.
#[verifier::external_type_specification]
#[verifier::external_body]
pub struct ExFormatter<'a>(core::fmt::Formatter<'a>);

/// `core::fmt::Error`, of which nothing is known.
#[verifier::external_type_specification]
#[verifier::external_body]
pub struct ExFmtError(core::fmt::Error);

/// Calls `Hash::hash`, which feeds `value` into `state`.
///
/// Nothing is claimed of what the hasher holds afterwards.
#[verifier::external_body]
pub(crate) fn hash_into<T: Hash, H: Hasher>(value: &T, state: &mut H) {
    value.hash(state)
}

/// Calls `Debug::fmt`, which writes `value` to `f`.
///
/// Nothing is claimed of what is written, nor of whether it succeeds.
#[verifier::external_body]
pub(crate) fn debug_into<T: Debug>(value: &T, f: &mut Formatter<'_>) -> (r: Result<(), Error>) {
    Debug::fmt(value, f)
}

/// Calls `Formatter::debug_tuple`, then `field` and `finish` on the builder
/// that it returns: together they write `field` to `f` as the one field of a
/// tuple struct called `name`.
///
/// Nothing is claimed of what is written, nor of whether it succeeds.
#[verifier::external_body]
pub(crate) fn debug_tuple_into<T: Debug>(name: &str, field: &T, f: &mut Formatter<'_>) -> (r: Result<
    (),
    Error,
>) {
    f.debug_tuple(name).field(field).finish()
}

} // verus!
