//! Thin pointers: a pointer kept as the one machine word of its erasure.

use vstd::prelude::*;
use vstd::std_specs::cmp::{PartialEqSpec, PartialEqSpecImpl, PartialOrdSpec, PartialOrdSpecImpl};
use core::cmp::Ordering;
use vstd::std_specs::convert::FromSpecImpl;
use core::fmt::{Debug, Error, Formatter};
use core::hash::{Hash, Hasher};
use core::marker::PhantomData;
use core::mem::ManuallyDrop;
use crate::erased::{
    is_erasure_of, lemma_unerased, restore, unerase_in_drop, unerased, ErasablePtr, ErasedPtr,
};
use crate::forward::{
    clone_erased, debug_erased, eq_erased, hash_erased, partial_cmp_erased, with_erased,
};

verus! {

/// Wrapper struct to create thin pointer types.
///
/// A `Thin<P>` owns a pointer of type `P` and holds it erased, so that it is
/// one machine word wide whatever `P` is.
///
/// The view of a thin pointer is the pointer that it holds.
pub struct Thin<P: ErasablePtr> {
    ptr: ErasedPtr,
    marker: PhantomData<P>,
}

impl<P: ErasablePtr> View for Thin<P> {
    type V = P;

    open spec fn view(&self) -> P {
        unerased::<P>(self.word())
    }
}

impl<P: ErasablePtr> Thin<P> {
    /// The word that is all there is of this thin pointer.
    pub closed spec fn word(self) -> usize {
        self.ptr@
    }

    /// Whether the word of this thin pointer is the erasure of a pointer.
    /// This holds of every thin pointer that a program can reach.
    #[verifier::type_invariant]
    pub open spec fn wf(self) -> bool {
        is_erasure_of::<P>(self.word())
    }

    /// Thin pointers with the same word are the same thin pointer.
    pub proof fn lemma_same_word(self, other: Self)
        requires
            self.word() == other.word(),
        ensures
            self == other,
    {
        self.ptr.lemma_same_address(other.ptr);
    }

    /// Extract the wrapped pointer.
    pub fn into_inner(this: Self) -> (r: P)
        ensures
            r == this@,
    {
        proof {
            use_type_invariant(&this);
        }
        let this = ManuallyDrop::new(this);
        restore::<P>(this.ptr)
    }

    /// Run a closure with a borrow of the real pointer.
    pub fn with<F, T>(this: &Self, f: F) -> (r: T) where F: FnOnce(&P) -> T
        requires
            f.requires((&this@,)),
        ensures
            f.ensures((&this@,), r),
    {
        proof {
            use_type_invariant(this);
        }
        with_erased::<P, T, F>(this.ptr, f)
    }
}

impl<P: ErasablePtr> Thin<P> {
    /// Run a closure with a mutable borrow of the real pointer.
    ///
    /// The closure may change the pointer, or put another in its place:
    /// whatever pointer it leaves is what the thin pointer holds afterwards,
    /// also where the closure unwinds.
    pub fn with_mut<F, T>(this: &mut Self, f: F) -> (r: T) where F: FnOnce(&mut P) -> T
        requires
            forall|p: &mut P| *p == old(this)@ ==> f.requires((p,)),
        ensures
            exists|p: &mut P| *p == old(this)@ && f.ensures((p,), r) && final(this)@ == *final(p),
    {
        proof {
            use_type_invariant(&*this);
        }
        let inner = restore::<P>(this.ptr);
        call_guarded(this, inner, f)
    }

    /// Make this thin pointer hold `inner`. What it held before is neither
    /// restored nor dropped.
    fn put_back(&mut self, inner: P)
        ensures
            final(self)@ == inner,
    {
        let ptr = P::erase(inner);
        proof {
            lemma_unerased(inner, ptr@);
        }
        self.ptr = ptr;
    }
}

/// What the guard makes of a call: the call `started` from the value that was
/// `given` to the guard, it `returned`, and what it `left` behind its borrow is
/// what was `put_back`.
spec fn is_guarded_call<P>(given: P, started: P, returned: bool, left: P, put_back: P) -> bool {
    started == given && returned && left == put_back
}

/// Calls `scopeguard::guard` to run `f` on a mutable borrow of `inner` and
/// to put what `f` leaves of `inner` back into `this`.
///
/// Trusted: that the guard hands its value to its closure once, as `f` left
/// it, when the guard is dropped at the end of this function. The closure is
/// `Thin::put_back`.
#[verifier::external_body]
fn call_guarded<P: ErasablePtr, T, F: FnOnce(&mut P) -> T>(this: &mut Thin<P>, inner: P, f: F) -> (r: T)
    requires
        forall|p: &mut P| *p == inner ==> f.requires((p,)),
    ensures
        exists|p: &mut P| is_guarded_call(inner, *p, f.ensures((p,), r), *final(p), final(this)@),
{
    let mut guard = scopeguard::guard(inner, |inner| this.put_back(inner));
    f(&mut guard)
}

impl<P: ErasablePtr> From<P> for Thin<P> {
    /// Erase the pointer and keep the word.
    fn from(this: P) -> (r: Self)
        ensures
            r@ == this,
            this.erased() == Some(r.word()),
    {
        let ptr = P::erase(this);
        proof {
            lemma_unerased(this, ptr@);
            ErasedPtr::lemma_at(ptr@);
            ptr.lemma_same_address(ErasedPtr::at(ptr@));
        }
        Thin { ptr, marker: PhantomData }
    }
}

impl<P: ErasablePtr> FromSpecImpl<P> for Thin<P> {
    open spec fn obeys_from_spec() -> bool {
        true
    }

    open spec fn from_spec(this: P) -> Self {
        Thin::<P>::holding(this)
    }
}

impl<P: ErasablePtr> Thin<P> {
    /// The thin pointer that holds `this`.
    pub closed spec fn holding(this: P) -> Self {
        Thin { ptr: ErasedPtr::at(this.erased().unwrap()), marker: PhantomData }
    }

    /// The thin pointer that holds `this` holds nothing else, and its word
    /// is the erasure of `this`.
    pub proof fn lemma_holding(this: P)
        requires
            this.erased() is Some,
        ensures
            Self::holding(this).wf(),
            Self::holding(this)@ == this,
            Some(Self::holding(this).word()) == this.erased(),
    {
        ErasedPtr::lemma_at(this.erased().unwrap());
        lemma_unerased(this, this.erased().unwrap());
    }
}

impl<P: ErasablePtr> Drop for Thin<P> {
    /// Restores the pointer and drops it.
    fn drop(&mut self)
        opens_invariants none
        no_unwind
    {
        proof {
            use_type_invariant(&*self);
        }
        let _this: P = unerase_in_drop(self.ptr);
    }
}

impl<P: ErasablePtr + Clone> Clone for Thin<P> {
    /// Clones the pointer and erases the clone.
    fn clone(&self) -> (r: Self)
        ensures
            cloned::<P>(self@, r@),
    {
        proof {
            use_type_invariant(self);
        }
        let twin = clone_erased::<P>(self.ptr);
        let ptr = P::erase(twin);
        proof {
            lemma_unerased(twin, ptr@);
        }
        Thin { ptr, marker: PhantomData }
    }
}

impl<P: ErasablePtr + PartialEq> PartialEq for Thin<P> {
    /// Thin pointers are equal when their pointers are, by the `==` of `P`.
    fn eq(&self, other: &Self) -> (r: bool) {
        proof {
            use_type_invariant(self);
            use_type_invariant(other);
        }
        eq_erased::<P>(self.ptr, other.ptr)
    }
}

impl<P: ErasablePtr + PartialEq> PartialEqSpecImpl for Thin<P> {
    open spec fn obeys_eq_spec() -> bool {
        P::obeys_eq_spec()
    }

    open spec fn eq_spec(&self, other: &Self) -> bool {
        self@.eq_spec(&other@)
    }
}

impl<P: ErasablePtr + Eq> Eq for Thin<P> {}

impl<P: ErasablePtr + PartialOrd> PartialOrd for Thin<P> {
    /// Thin pointers compare as their pointers do, by the order of `P`.
    fn partial_cmp(&self, other: &Self) -> (r: Option<Ordering>) {
        proof {
            use_type_invariant(self);
            use_type_invariant(other);
        }
        partial_cmp_erased::<P>(self.ptr, other.ptr)
    }
}

impl<P: ErasablePtr + PartialOrd> PartialOrdSpecImpl for Thin<P> {
    open spec fn obeys_partial_cmp_spec() -> bool {
        P::obeys_partial_cmp_spec()
    }

    open spec fn partial_cmp_spec(&self, other: &Self) -> Option<Ordering> {
        self@.partial_cmp_spec(&other@)
    }
}

impl<P: ErasablePtr + Hash> Hash for Thin<P> {
    /// Feeds the pointer into `state`, by the `Hash` of `P`.
    fn hash<S: Hasher>(&self, state: &mut S) {
        proof {
            use_type_invariant(self);
        }
        hash_erased::<P, S>(self.ptr, state)
    }
}

impl<P: ErasablePtr + Debug> Debug for Thin<P> {
    /// Writes the pointer, by the `Debug` of `P`.
    fn fmt(&self, f: &mut Formatter<'_>) -> (r: Result<(), Error>) {
        proof {
            use_type_invariant(self);
        }
        debug_erased::<P>(self.ptr, f)
    }
}

} // verus!
