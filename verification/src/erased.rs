//! Erased pointers: the machine word that is left of a pointer once its type
//! is forgotten, and the trait of the pointers that can be turned into one.

use vstd::prelude::*;

verus! {

/// A thin, type-erased pointer: one machine word that is never null.
///
/// Its model is its address, a non-zero `usize`.
#[derive(Clone, Copy, Debug, PartialEq, Eq, Hash)]
pub struct ErasedPtr {
    addr: usize,
}

impl View for ErasedPtr {
    type V = usize;

    closed spec fn view(&self) -> usize {
        self.addr
    }
}

impl ErasedPtr {
    /// An erased pointer is never null. This holds of every erased pointer
    /// that a program can reach.
    #[verifier::type_invariant]
    pub closed spec fn non_null(self) -> bool {
        self.addr != 0
    }

    /// The erased pointer at `addr`.
    pub closed spec fn at(addr: usize) -> Self {
        ErasedPtr { addr }
    }

    /// The erased pointer at `addr` is at `addr`.
    pub broadcast proof fn lemma_at(addr: usize)
        ensures
            #[trigger] Self::at(addr)@ == addr,
    {
    }

    /// Erased pointers at the same address are the same.
    pub proof fn lemma_same_address(self, other: Self)
        requires
            self@ == other@,
        ensures
            self == other,
    {
    }

    /// An erased pointer is never null.
    pub proof fn lemma_non_null(self)
        requires
            self.non_null(),
        ensures
            self@ != 0,
    {
    }

    /// The erased pointer at `addr`, or `None` for the null address.
    pub fn new(addr: usize) -> (r: Option<Self>)
        ensures
            addr == 0 <==> r is None,
            r matches Some(p) ==> p@ == addr,
    {
        if addr == 0 {
            None
        } else {
            Some(ErasedPtr { addr })
        }
    }

    /// The erased pointer at `addr`, which must not be null.
    pub fn new_unchecked(addr: usize) -> (r: Self)
        requires
            addr != 0,
        ensures
            r@ == addr,
            r == Self::at(addr),
        opens_invariants none
        no_unwind
    {
        ErasedPtr { addr }
    }

    /// This pointer moved to the address `addr`, which must not be null.
    pub fn with_addr(self, addr: usize) -> (r: Self)
        requires
            addr != 0,
        ensures
            r@ == addr,
        opens_invariants none
        no_unwind
    {
        ErasedPtr { addr }
    }

    /// The address of this pointer.
    pub fn addr(self) -> (a: usize)
        ensures
            a == self@,
            a != 0,
        opens_invariants none
        no_unwind
    {
        proof {
            use_type_invariant(&self);
        }
        self.addr
    }
}

/// A (smart) pointer that can be erased to a machine word and restored from it.
///
/// Erasing is a pure conversion: the word depends on the pointer alone, two
/// different pointers of one type never erase to the same word, and the word
/// does not change while the pointer is only borrowed. The model of the
/// conversion is [`erased`](ErasablePtr::erased).
///
/// To the model a pointer is what it is, not what it points to: two pointers
/// to equal values at two addresses are two pointers. A type of which the
/// verifier sees only the value that is pointed to, as it does of `Box`, is
/// to be wrapped in a type of its own before it is made erasable.
///
/// Whoever implements this trait vouches for these contracts: the library's
/// proofs about unions and thin pointers hold for such implementations only.
/// An implementation in code that is not verified writes `erased` and
/// `erased_is_injective` as functions that are never called.
pub trait ErasablePtr: Sized {
    /// The address that erasing this pointer gives, or `None` for a value that
    /// no running program can hold.
    spec fn erased(self) -> Option<usize>;

    /// Erasing can be undone: pointers with the same erasure are the same.
    proof fn erased_is_injective(a: Self, b: Self)
        ensures
            a.erased() is Some && a.erased() == b.erased() ==> a == b,
    ;

    /// Turn this pointer into an erased pointer, giving up its type but not
    /// what it owns. To get the pointer back, use `unerase`.
    fn erase(this: Self) -> (word: ErasedPtr)
        ensures
            this.erased() == Some(word@),
    ;

    /// Restore the pointer that was erased to `word`.
    ///
    /// The word must be the erasure of a pointer of this type, and each erased
    /// pointer may be restored once.
    fn unerase(word: ErasedPtr) -> (this: Self)
        requires
            exists|p: Self| #[trigger] p.erased() == Some(word@),
        ensures
            this.erased() == Some(word@),
    ;
}

/// Whether `addr` is what some pointer of type `P` erases to.
pub open spec fn is_erasure_of<P: ErasablePtr>(addr: usize) -> bool {
    exists|p: P| #[trigger] p.erased() == Some(addr)
}

/// The pointer of type `P` that erases to `addr`.
pub open spec fn unerased<P: ErasablePtr>(addr: usize) -> P {
    choose|p: P| #[trigger] p.erased() == Some(addr)
}

/// Whether the erasure of `p` has no bit set under `mask`.
pub open spec fn is_clean<P: ErasablePtr>(p: P, mask: usize) -> bool {
    p.erased() is Some ==> p.erased().unwrap() & mask == 0
}

/// Whether every pointer of type `P` erases to an address whose bits under
/// `mask` are all zero.
pub open spec fn aligned_to<P: ErasablePtr>(mask: usize) -> bool {
    forall|p: P| #[trigger] is_clean(p, mask)
}

/// The pointer that erases to `addr` is the one whose erasure `addr` is.
pub proof fn lemma_unerased<P: ErasablePtr>(p: P, addr: usize)
    requires
        p.erased() == Some(addr),
    ensures
        is_erasure_of::<P>(addr),
        unerased::<P>(addr) == p,
{
    P::erased_is_injective(p, unerased::<P>(addr));
}

/// Restore the pointer that was erased to `word`, which is the one that
/// `word` is the erasure of.
pub(crate) fn restore<P: ErasablePtr>(word: ErasedPtr) -> (this: P)
    requires
        is_erasure_of::<P>(word@),
    ensures
        this == unerased::<P>(word@),
{
    let this = P::unerase(word);
    proof {
        lemma_unerased(this, word@);
    }
    this
}

/// Calls the `unerase` of the pointer type `P`, which whoever made `P`
/// erasable wrote, where a destructor needs it.
///
/// Trusted: that restoring a pointer from its erasure neither unwinds nor
/// opens an invariant, as the verifier asks of all that a destructor calls.
/// The rest is the contract of `ErasablePtr::unerase` itself.
#[verifier::external_body]
pub(crate) fn unerase_in_drop<P: ErasablePtr>(word: ErasedPtr) -> (this: P)
    requires
        is_erasure_of::<P>(word@),
    ensures
        this.erased() == Some(word@),
    opens_invariants none
    no_unwind
{
    P::unerase(word)
}

/// A pointer type without values, for the unused variants of a union.
#[derive(Debug, Copy, Clone, Ord, PartialOrd, Eq, PartialEq, Hash)]
pub struct NeverPtr {
    never: core::convert::Infallible,
}

impl NeverPtr {
    #[verifier::type_invariant]
    spec fn uninhabited(self) -> bool {
        false
    }
}

impl ErasablePtr for NeverPtr {
    open spec fn erased(self) -> Option<usize> {
        None
    }

    proof fn erased_is_injective(a: Self, b: Self) {
    }

    fn erase(this: Self) -> (word: ErasedPtr) {
        proof {
            use_type_invariant(&this);
        }
        vstd::pervasive::unreached()
    }

    fn unerase(word: ErasedPtr) -> (this: Self) {
        vstd::pervasive::unreached()
    }
}

} // verus!
