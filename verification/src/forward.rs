//! Forwarding: the operations of a pointer, run on its erasure.
//!
//! A union or a thin pointer holds its pointer as a word. To clone, compare,
//! hash or print the pointer, the pointer is restored for the length of the
//! call and never dropped, so that the word still owns what the pointer owns.

use vstd::prelude::*;
use vstd::std_specs::cmp::{PartialEqSpec, PartialOrdSpec};
use core::cmp::Ordering;
use core::fmt::{Debug, Error, Formatter};
use core::hash::{Hash, Hasher};
use core::mem::ManuallyDrop;
use crate::erased::{is_erasure_of, restore, unerased, ErasablePtr, ErasedPtr};
use crate::std_calls::{debug_into, debug_tuple_into, hash_into};

verus! {

/// Run `f` on a borrow of the pointer that was erased to `word`.
///
/// The pointer is restored for the call only and never dropped: whoever holds
/// `word` still owns it afterwards, also when `f` unwinds.
pub(crate) fn with_erased<P: ErasablePtr, R, F: FnOnce(&P) -> R>(word: ErasedPtr, f: F) -> (r: R)
    requires
        is_erasure_of::<P>(word@),
        f.requires((&unerased::<P>(word@),)),
    ensures
        f.ensures((&unerased::<P>(word@),), r),
{
    let this = ManuallyDrop::new(restore::<P>(word));
    f(&this)
}

/// A clone of the pointer that was erased to `word`, which stays erased.
pub(crate) fn clone_erased<P: ErasablePtr + Clone>(word: ErasedPtr) -> (c: P)
    requires
        is_erasure_of::<P>(word@),
    ensures
        cloned::<P>(unerased::<P>(word@), c),
{
    let this = ManuallyDrop::new(restore::<P>(word));
    let r: &P = &this;
    r.clone()
}

/// A copy of the pointer that was erased to `word`, which stays erased.
pub(crate) fn copy_erased<P: ErasablePtr + Copy>(word: ErasedPtr) -> (c: P)
    requires
        is_erasure_of::<P>(word@),
    ensures
        c == unerased::<P>(word@),
{
    let this = ManuallyDrop::new(restore::<P>(word));
    *this
}

/// Whether the pointers that were erased to `left` and `right` are equal by
/// the `==` of their type. Both stay erased.
pub(crate) fn eq_erased<P: ErasablePtr + PartialEq>(left: ErasedPtr, right: ErasedPtr) -> (r: bool)
    requires
        is_erasure_of::<P>(left@),
        is_erasure_of::<P>(right@),
    ensures
        P::obeys_eq_spec() ==> r == unerased::<P>(left@).eq_spec(&unerased::<P>(right@)),
{
    let this = ManuallyDrop::new(restore::<P>(left));
    let that = ManuallyDrop::new(restore::<P>(right));
    let x: &P = &this;
    let y: &P = &that;
    x.eq(y)
}

/// How the pointers that were erased to `left` and `right` compare by the
/// order of their type, if they do. Both stay erased.
pub(crate) fn partial_cmp_erased<P: ErasablePtr + PartialOrd>(left: ErasedPtr, right: ErasedPtr) -> (r:
    Option<Ordering>)
    requires
        is_erasure_of::<P>(left@),
        is_erasure_of::<P>(right@),
    ensures
        P::obeys_partial_cmp_spec() ==> r == unerased::<P>(left@).partial_cmp_spec(
            &unerased::<P>(right@),
        ),
{
    let this = ManuallyDrop::new(restore::<P>(left));
    let that = ManuallyDrop::new(restore::<P>(right));
    let x: &P = &this;
    let y: &P = &that;
    x.partial_cmp(y)
}

/// Feed the pointer that was erased to `word` into `state`. It stays erased.
pub(crate) fn hash_erased<P: ErasablePtr + Hash, H: Hasher>(word: ErasedPtr, state: &mut H)
    requires
        is_erasure_of::<P>(word@),
{
    let this = ManuallyDrop::new(restore::<P>(word));
    hash_into::<P, H>(&this, state)
}

/// Write the pointer that was erased to `word` to `f`, by the `Debug` of its
/// type. It stays erased.
pub(crate) fn debug_erased<P: ErasablePtr + Debug>(word: ErasedPtr, f: &mut Formatter<'_>) -> (r: Result<
    (),
    Error,
>)
    requires
        is_erasure_of::<P>(word@),
{
    let this = ManuallyDrop::new(restore::<P>(word));
    debug_into::<P>(&this, f)
}

/// Write the pointer that was erased to `word` to `f` as the one field of a
/// tuple struct called `name`, by the `Debug` of its type. It stays erased.
pub(crate) fn debug_tuple_erased<P: ErasablePtr + Debug>(
    name: &str,
    word: ErasedPtr,
    f: &mut Formatter<'_>,
) -> (r: Result<(), Error>)
    requires
        is_erasure_of::<P>(word@),
{
    let this = ManuallyDrop::new(restore::<P>(word));
    debug_tuple_into::<P>(name, &this, f)
}

} // verus!
