//! The union of two pointers in one machine word.

use vstd::prelude::*;
use vstd::std_specs::cmp::{PartialEqSpec, PartialEqSpecImpl};
use core::fmt::{Debug, Error, Formatter};
use core::hash::{Hash, Hasher};
use core::marker::PhantomData;
use core::mem::ManuallyDrop;
use crate::erased::{
    aligned_to, is_clean, is_erasure_of, lemma_unerased, restore, unerase_in_drop, unerased,
    ErasablePtr, ErasedPtr,
};
use crate::forward::{
    clone_erased, copy_erased, debug_tuple_erased, eq_erased, hash_erased, with_erased,
};
use crate::std_calls::debug_tuple_into;
use crate::tag::{
    check_tag, lemma_clean_is_multiple, lemma_set_tag, lemma_tags_fit, lemma_unset_tag, pack_word,
    set_tag, tag_of, unset_any_tag, unset_tag, untagged,
};
use crate::tag::{MASK_2, TAG_A, TAG_B};

verus! {

/// An unpacked version of [`Union2`].
#[derive(Debug, Copy, Clone, Eq, PartialEq, Hash)]
pub enum Enum2<A, B> {
    A(A),
    B(B),
}

/// The word that packs `held`: the erasure of its pointer with the tag of its
/// variant in the lowest bit. `None` where the erasure is null or not clean
/// under the mask.
pub open spec fn packed2<A: ErasablePtr, B: ErasablePtr>(held: Enum2<A, B>) -> Option<usize> {
    match held {
        Enum2::A(a) => pack_word(a.erased(), MASK_2, TAG_A),
        Enum2::B(b) => pack_word(b.erased(), MASK_2, TAG_B),
    }
}

/// Whether the pointer of `held` erases to an address that leaves room for the
/// tag, so that `held` can be packed.
pub open spec fn fits2<A: ErasablePtr, B: ErasablePtr>(held: Enum2<A, B>) -> bool {
    match held {
        Enum2::A(a) => is_clean(a, MASK_2),
        Enum2::B(b) => is_clean(b, MASK_2),
    }
}

/// Whether `word` packs a pointer of one of the two types: its tag names a
/// variant, and without the tag it is the erasure of a pointer of that
/// variant's type.
pub open spec fn is_packed2<A: ErasablePtr, B: ErasablePtr>(word: usize) -> bool {
    &&& untagged(word, MASK_2) != 0
    &&& {
        ||| tag_of(word, MASK_2) == TAG_A && is_erasure_of::<A>(untagged(word, MASK_2))
        ||| tag_of(word, MASK_2) == TAG_B && is_erasure_of::<B>(untagged(word, MASK_2))
    }
}

/// The pointer that `word` packs, in the variant that the tag of `word` names.
pub open spec fn unpacked2<A: ErasablePtr, B: ErasablePtr>(word: usize) -> Enum2<A, B> {
    if tag_of(word, MASK_2) == TAG_A {
        Enum2::A(unerased::<A>(untagged(word, MASK_2)))
    } else {
        Enum2::B(unerased::<B>(untagged(word, MASK_2)))
    }
}

/// Unpacking the word that packs `held` gives `held` again.
pub proof fn lemma_unpack_packed2<A: ErasablePtr, B: ErasablePtr>(held: Enum2<A, B>)
    requires
        packed2(held) is Some,
    ensures
        is_packed2::<A, B>(packed2(held).unwrap()),
        unpacked2::<A, B>(packed2(held).unwrap()) == held,
{
    lemma_tags_fit();
    match held {
        Enum2::A(a) => {
            lemma_set_tag(a.erased().unwrap(), MASK_2, TAG_A);
            lemma_unerased(a, a.erased().unwrap());
        },
        Enum2::B(b) => {
            lemma_set_tag(b.erased().unwrap(), MASK_2, TAG_B);
            lemma_unerased(b, b.erased().unwrap());
        },
    }
}

/// Round trip: packing what a packed word unpacks to gives the same word,
/// bit for bit.
pub proof fn lemma_pack_unpacked2<A: ErasablePtr, B: ErasablePtr>(word: usize)
    requires
        is_packed2::<A, B>(word),
    ensures
        packed2(unpacked2::<A, B>(word)) == Some(word),
{
    lemma_unset_tag(word, MASK_2);
}

/// Round trip: a pointer that is packed, unpacked and packed again gives the
/// word that packing it gave at first, bit for bit.
pub proof fn lemma_round_trip2<A: ErasablePtr, B: ErasablePtr>(held: Enum2<A, B>)
    requires
        packed2(held) is Some,
    ensures
        packed2(unpacked2::<A, B>(packed2(held).unwrap())) == packed2(held),
{
    lemma_unpack_packed2(held);
}

/// Identity: two packed words are the same word exactly when they pack the
/// same pointer in the same variant.
pub proof fn lemma_same_word_same_pointer2<A: ErasablePtr, B: ErasablePtr>(left: usize, right: usize)
    requires
        is_packed2::<A, B>(left),
        is_packed2::<A, B>(right),
    ensures
        left == right <==> unpacked2::<A, B>(left) == unpacked2::<A, B>(right),
{
    lemma_pack_unpacked2::<A, B>(left);
    lemma_pack_unpacked2::<A, B>(right);
}

/// Exclusivity: a packed word is of exactly one variant. Its tag is the tag
/// of the variant that it unpacks to, and of no other.
pub proof fn lemma_exclusive2<A: ErasablePtr, B: ErasablePtr>(word: usize)
    requires
        is_packed2::<A, B>(word),
    ensures
        unpacked2::<A, B>(word) is A <==> tag_of(word, MASK_2) == TAG_A,
        unpacked2::<A, B>(word) is B <==> tag_of(word, MASK_2) == TAG_B,
{
}

/// A builder for [`Union2`].
///
/// An instance of this builder is evidence that every pointer of its types
/// erases to an address that is a multiple of two, so that a union can be
/// made of any of them without a check.
pub struct Builder2<A: ErasablePtr, B: ErasablePtr> {
    phantom: PhantomData<Enum2<A, B>>,
}

impl<A: ErasablePtr, B: ErasablePtr> Clone for Builder2<A, B> {
    /// A builder is evidence and no more: a copy of it is the same evidence.
    fn clone(&self) -> (r: Self)
        ensures
            r == *self,
    {
        *self
    }
}

impl<A: ErasablePtr, B: ErasablePtr> Copy for Builder2<A, B> {}

impl<A: ErasablePtr, B: ErasablePtr> Builder2<A, B> {
    #[verifier::type_invariant]
    spec fn alignment_holds(self) -> bool {
        Self::safe_to_build()
    }

    /// What a builder is evidence of: the erasure of every pointer of its
    /// types is clean under the mask of the union.
    pub open spec fn safe_to_build() -> bool {
        &&& aligned_to::<A>(MASK_2)
        &&& aligned_to::<B>(MASK_2)
    }

    /// Assert that creating pointer unions of these types is safe.
    ///
    /// The alignment of the pointer types must meet the requirement of the
    /// union; nothing checks it when the program runs.
    pub fn new_unchecked() -> (r: Self)
        requires
            Self::safe_to_build(),
    {
        Builder2 { phantom: PhantomData }
    }

    /// Construct a union at this variant.
    pub fn a(self, this: A) -> (r: Union2<A, B>)
        ensures
            r@ == Enum2::<A, B>::A(this),
            packed2(Enum2::<A, B>::A(this)) == Some(r.word()),
    {
        proof {
            use_type_invariant(&self);
        }
        Enum2::<A, B>::A(this).pack_unchecked()
    }

    /// Construct a union at this variant.
    pub fn b(self, this: B) -> (r: Union2<A, B>)
        ensures
            r@ == Enum2::<A, B>::B(this),
            packed2(Enum2::<A, B>::B(this)) == Some(r.word()),
    {
        proof {
            use_type_invariant(&self);
        }
        Enum2::<A, B>::B(this).pack_unchecked()
    }
}

impl<A: ErasablePtr, B: ErasablePtr> Enum2<A, B> {
    /// Pack this loose enum into a pointer union.
    pub fn pack(self, builder: Builder2<A, B>) -> (r: Union2<A, B>)
        ensures
            r@ == self,
            packed2(self) == Some(r.word()),
    {
        match self {
            Enum2::A(this) => builder.a(this),
            Enum2::B(this) => builder.b(this),
        }
    }

    /// Pack this loose enum into a pointer union, with a dynamic alignment
    /// check. Returns the enum on error.
    pub fn try_pack(self) -> (r: Result<Union2<A, B>, Self>)
        ensures
            r is Ok <==> fits2(self),
            match r {
                Ok(made) => made@ == self && packed2(self) == Some(made.word()),
                Err(back) => back == self,
            },
    {
        match self {
            Enum2::A(this) => match Union2::new_a(this) {
                Ok(made) => Ok(made),
                Err(back) => Err(Enum2::A(back)),
            },
            Enum2::B(this) => match Union2::new_b(this) {
                Ok(made) => Ok(made),
                Err(back) => Err(Enum2::B(back)),
            },
        }
    }

    /// Pack this loose enum into a pointer union.
    ///
    /// The pointer packed must be properly aligned. Only the pointer that is
    /// packed is restricted, not the other pointer types of the union.
    pub fn pack_unchecked(self) -> (r: Union2<A, B>)
        requires
            fits2(self),
        ensures
            r@ == self,
            packed2(self) == Some(r.word()),
    {
        proof {
            lemma_tags_fit();
        }
        match self {
            Enum2::A(this) => {
                let word = A::erase(this);
                proof {
                    use_type_invariant(&word);
                    word.lemma_non_null();
                    lemma_unpack_packed2(self);
                }
                Union2 { raw: set_tag(word, MASK_2, TAG_A), phantom: PhantomData }
            },
            Enum2::B(this) => {
                let word = B::erase(this);
                proof {
                    use_type_invariant(&word);
                    word.lemma_non_null();
                    lemma_unpack_packed2(self);
                }
                Union2 { raw: set_tag(word, MASK_2, TAG_B), phantom: PhantomData }
            },
        }
    }
}

/// A pointer union of two pointer types.
///
/// This is a tagged union of two pointer types that is only as big as a
/// single pointer: the tag is kept in the lowest bit of the address. As
/// such, the pointer must be aligned to at least two bytes, which
/// [`Builder2`] vouches for and the `new_` constructors check.
///
/// The view of a union is the pointer that it holds, as an [`Enum2`].
pub struct Union2<A: ErasablePtr, B: ErasablePtr> {
    raw: ErasedPtr,
    phantom: PhantomData<Enum2<A, B>>,
}

impl<A: ErasablePtr, B: ErasablePtr> View for Union2<A, B> {
    type V = Enum2<A, B>;

    open spec fn view(&self) -> Enum2<A, B> {
        unpacked2::<A, B>(self.word())
    }
}

impl<A: ErasablePtr, B: ErasablePtr> Union2<A, B> {
    /// The tagged word that is all there is of this union.
    pub closed spec fn word(self) -> usize {
        self.raw@
    }

    /// Whether the word of this union packs a pointer of one of its variants.
    /// This holds of every union that a program can reach.
    #[verifier::type_invariant]
    pub open spec fn wf(self) -> bool {
        is_packed2::<A, B>(self.word())
    }

    /// Whether this union and `other` are the same variant and hold the same
    /// pointer: whether they are the same word.
    pub open spec fn same_pointer(self, other: Self) -> bool {
        self.word() == other.word()
    }

    /// Being the same pointer is reflexive, symmetric and transitive, and
    /// unions that are the same pointer hold the same pointer.
    pub proof fn lemma_same_pointer(self, other: Self, third: Self)
        requires
            self.wf(),
            other.wf(),
        ensures
            self.same_pointer(self),
            self.same_pointer(other) == other.same_pointer(self),
            self.same_pointer(other) && other.same_pointer(third) ==> self.same_pointer(third),
            self.same_pointer(other) <==> self@ == other@,
    {
        lemma_same_word_same_pointer2::<A, B>(self.word(), other.word());
    }

    /// Unions with the same word are the same union.
    pub proof fn lemma_same_word(self, other: Self)
        requires
            self.word() == other.word(),
        ensures
            self == other,
    {
        self.raw.lemma_same_address(other.raw);
    }

    /// Construct a variant of this union with a dynamic alignment check.
    ///
    /// Returns the pointer on error.
    pub fn new_a(a: A) -> (r: Result<Self, A>)
        ensures
            a.erased() is Some,
            r is Ok <==> a.erased().unwrap() % 2 == 0,
            r is Ok <==> is_clean(a, MASK_2),
            match r {
                Ok(made) => made@ == Enum2::<A, B>::A(a)
                    && packed2(Enum2::<A, B>::A(a)) == Some(made.word()),
                Err(back) => back == a,
            },
    {
        let word = A::erase(a);
        proof {
            use_type_invariant(&word);
            word.lemma_non_null();
            lemma_tags_fit();
            lemma_clean_is_multiple(word@);
        }
        if check_tag(word, MASK_2, 0) {
            proof {
                lemma_unpack_packed2(Enum2::<A, B>::A(a));
            }
            Ok(Union2 { raw: set_tag(word, MASK_2, TAG_A), phantom: PhantomData })
        } else {
            proof {
                lemma_unerased(a, word@);
            }
            Err(restore::<A>(word))
        }
    }

    /// Check if the union is this variant.
    pub fn is_a(&self) -> (r: bool)
        ensures
            r == (self@ is A),
            r == (tag_of(self.word(), MASK_2) == TAG_A),
    {
        proof {
            use_type_invariant(self);
        }
        check_tag(self.raw, MASK_2, TAG_A)
    }

    /// Extract this variant from the union.
    ///
    /// Returns the union on error.
    pub fn into_a(self) -> (r: Result<A, Self>)
        ensures
            match r {
                Ok(this) => self@ == Enum2::<A, B>::A(this),
                Err(back) => !(self@ is A) && back == self,
            },
    {
        if self.is_a() {
            proof {
                use_type_invariant(&self);
            }
            let this = ManuallyDrop::new(self);
            Ok(restore::<A>(unset_tag(this.raw, MASK_2, TAG_A)))
        } else {
            Err(self)
        }
    }

    /// Run a closure with this variant.
    pub fn with_a<R, Func: FnOnce(&A) -> R>(&self, func: Func) -> (r: Option<R>)
        requires
            self@ matches Enum2::A(this) ==> func.requires((&this,)),
        ensures
            match r {
                Some(x) => self@ matches Enum2::A(this) && func.ensures((&this,), x),
                None => !(self@ is A),
            },
    {
        if self.is_a() {
            proof {
                use_type_invariant(self);
            }
            Some(with_erased::<A, R, Func>(unset_tag(self.raw, MASK_2, TAG_A), func))
        } else {
            None
        }
    }

    /// Clone this variant out of the union.
    pub fn clone_a(&self) -> (r: Option<A>) where A: Clone
        ensures
            match r {
                Some(twin) => self@ matches Enum2::A(this) && cloned::<A>(this, twin),
                None => !(self@ is A),
            },
    {
        if self.is_a() {
            proof {
                use_type_invariant(self);
            }
            Some(clone_erased::<A>(unset_tag(self.raw, MASK_2, TAG_A)))
        } else {
            None
        }
    }

    /// Copy this variant out of the union.
    pub fn copy_a(&self) -> (r: Option<A>) where A: Copy
        ensures
            match r {
                Some(twin) => self@ == Enum2::<A, B>::A(twin),
                None => !(self@ is A),
            },
    {
        if self.is_a() {
            proof {
                use_type_invariant(self);
            }
            Some(copy_erased::<A>(unset_tag(self.raw, MASK_2, TAG_A)))
        } else {
            None
        }
    }

    /// Construct a variant of this union with a dynamic alignment check.
    ///
    /// Returns the pointer on error.
    pub fn new_b(b: B) -> (r: Result<Self, B>)
        ensures
            b.erased() is Some,
            r is Ok <==> b.erased().unwrap() % 2 == 0,
            r is Ok <==> is_clean(b, MASK_2),
            match r {
                Ok(made) => made@ == Enum2::<A, B>::B(b)
                    && packed2(Enum2::<A, B>::B(b)) == Some(made.word()),
                Err(back) => back == b,
            },
    {
        let word = B::erase(b);
        proof {
            use_type_invariant(&word);
            word.lemma_non_null();
            lemma_tags_fit();
            lemma_clean_is_multiple(word@);
        }
        if check_tag(word, MASK_2, 0) {
            proof {
                lemma_unpack_packed2(Enum2::<A, B>::B(b));
            }
            Ok(Union2 { raw: set_tag(word, MASK_2, TAG_B), phantom: PhantomData })
        } else {
            proof {
                lemma_unerased(b, word@);
            }
            Err(restore::<B>(word))
        }
    }

    /// Check if the union is this variant.
    pub fn is_b(&self) -> (r: bool)
        ensures
            r == (self@ is B),
            r == (tag_of(self.word(), MASK_2) == TAG_B),
    {
        proof {
            use_type_invariant(self);
        }
        check_tag(self.raw, MASK_2, TAG_B)
    }

    /// Extract this variant from the union.
    ///
    /// Returns the union on error.
    pub fn into_b(self) -> (r: Result<B, Self>)
        ensures
            match r {
                Ok(this) => self@ == Enum2::<A, B>::B(this),
                Err(back) => !(self@ is B) && back == self,
            },
    {
        if self.is_b() {
            proof {
                use_type_invariant(&self);
            }
            let this = ManuallyDrop::new(self);
            Ok(restore::<B>(unset_tag(this.raw, MASK_2, TAG_B)))
        } else {
            Err(self)
        }
    }

    /// Run a closure with this variant.
    pub fn with_b<R, Func: FnOnce(&B) -> R>(&self, func: Func) -> (r: Option<R>)
        requires
            self@ matches Enum2::B(this) ==> func.requires((&this,)),
        ensures
            match r {
                Some(x) => self@ matches Enum2::B(this) && func.ensures((&this,), x),
                None => !(self@ is B),
            },
    {
        if self.is_b() {
            proof {
                use_type_invariant(self);
            }
            Some(with_erased::<B, R, Func>(unset_tag(self.raw, MASK_2, TAG_B), func))
        } else {
            None
        }
    }

    /// Clone this variant out of the union.
    pub fn clone_b(&self) -> (r: Option<B>) where B: Clone
        ensures
            match r {
                Some(twin) => self@ matches Enum2::B(this) && cloned::<B>(this, twin),
                None => !(self@ is B),
            },
    {
        if self.is_b() {
            proof {
                use_type_invariant(self);
            }
            Some(clone_erased::<B>(unset_tag(self.raw, MASK_2, TAG_B)))
        } else {
            None
        }
    }

    /// Copy this variant out of the union.
    pub fn copy_b(&self) -> (r: Option<B>) where B: Copy
        ensures
            match r {
                Some(twin) => self@ == Enum2::<A, B>::B(twin),
                None => !(self@ is B),
            },
    {
        if self.is_b() {
            proof {
                use_type_invariant(self);
            }
            Some(copy_erased::<B>(unset_tag(self.raw, MASK_2, TAG_B)))
        } else {
            None
        }
    }

    /// Unpack this union into an enum.
    pub fn unpack(self) -> (r: Enum2<A, B>)
        ensures
            r == self@,
            packed2(r) == Some(self.word()),
    {
        proof {
            use_type_invariant(&self);
            lemma_pack_unpacked2::<A, B>(self.word());
        }
        let this = ManuallyDrop::new(self);
        let raw = this.raw;
        if check_tag(raw, MASK_2, TAG_A) {
            Enum2::A(restore::<A>(unset_tag(raw, MASK_2, TAG_A)))
        } else {
            Enum2::B(restore::<B>(unset_tag(raw, MASK_2, TAG_B)))
        }
    }

    /// Check if two unions are the same variant and point to the same value
    /// (not that the values compare as equal).
    pub fn ptr_eq(&self, other: &Self) -> (r: bool)
        ensures
            r == self.same_pointer(*other),
            r == (self@ == other@),
    {
        proof {
            use_type_invariant(self);
            use_type_invariant(other);
            lemma_same_word_same_pointer2::<A, B>(self.word(), other.word());
        }
        self.raw.addr() == other.raw.addr()
    }

    /// Get the raw type-erased untagged pointer to the payload.
    pub fn as_untagged_ptr(&self) -> (r: ErasedPtr)
        ensures
            r@ == untagged(self.word(), MASK_2),
            match self@ {
                Enum2::A(a) => a.erased() == Some(r@),
                Enum2::B(b) => b.erased() == Some(r@),
            },
    {
        proof {
            use_type_invariant(self);
        }
        unset_any_tag(self.raw, MASK_2)
    }
}

impl<A: ErasablePtr + Clone, B: ErasablePtr + Clone> Union2<A, B> {
    /// Whether whatever a clone of the pointer in this union may be, it
    /// erases to an address that leaves room for the tag.
    pub open spec fn clones_fit(self) -> bool {
        match self@ {
            Enum2::A(this) => forall|twin: A| cloned::<A>(this, twin) ==> is_clean(twin, MASK_2),
            Enum2::B(this) => forall|twin: B| cloned::<B>(this, twin) ==> is_clean(twin, MASK_2),
        }
    }

    /// Whether `other` holds a clone of the pointer in this union, in the
    /// same variant.
    pub open spec fn is_cloned_by(self, other: Self) -> bool {
        match self@ {
            Enum2::A(this) => other@ matches Enum2::A(twin) && cloned::<A>(this, twin),
            Enum2::B(this) => other@ matches Enum2::B(twin) && cloned::<B>(this, twin),
        }
    }

    /// Clone the pointer in this union into a union of its own.
    ///
    /// The clone must be aligned as the union requires, which holds where
    /// the pointer types are safe to build a union from. Where that is not
    /// known, use `try_clone`.
    pub fn clone(&self) -> (r: Self)
        requires
            self.clones_fit(),
        ensures
            self.is_cloned_by(r),
    {
        proof {
            use_type_invariant(self);
        }
        if check_tag(self.raw, MASK_2, TAG_A) {
            let twin = clone_erased::<A>(unset_tag(self.raw, MASK_2, TAG_A));
            Enum2::<A, B>::A(twin).pack_unchecked()
        } else {
            let twin = clone_erased::<B>(unset_tag(self.raw, MASK_2, TAG_B));
            Enum2::<A, B>::B(twin).pack_unchecked()
        }
    }

    /// Clone the pointer in this union into a union of its own, with a
    /// dynamic alignment check on the clone.
    ///
    /// Returns `None`, and drops the clone, where the clone is not aligned
    /// as the union requires.
    pub fn try_clone(&self) -> (r: Option<Self>)
        ensures
            match r {
                Some(made) => self.is_cloned_by(made),
                None => !self.clones_fit(),
            },
    {
        proof {
            use_type_invariant(self);
        }
        if check_tag(self.raw, MASK_2, TAG_A) {
            let twin = clone_erased::<A>(unset_tag(self.raw, MASK_2, TAG_A));
            match Union2::new_a(twin) {
                Ok(made) => Some(made),
                Err(_) => None,
            }
        } else {
            let twin = clone_erased::<B>(unset_tag(self.raw, MASK_2, TAG_B));
            match Union2::new_b(twin) {
                Ok(made) => Some(made),
                Err(_) => None,
            }
        }
    }
}

impl<A: ErasablePtr, B: ErasablePtr> ErasablePtr for Union2<A, B> {
    /// A union erases to its word, tag and all.
    open spec fn erased(self) -> Option<usize> {
        if self.wf() {
            Some(self.word())
        } else {
            None
        }
    }

    proof fn erased_is_injective(a: Self, b: Self) {
        if a.erased() is Some && a.erased() == b.erased() {
            a.lemma_same_word(b);
        }
    }

    /// Gives the word of the union, which keeps what the union owned.
    fn erase(this: Self) -> (word: ErasedPtr)
        ensures
            word@ == this.word(),
    {
        proof {
            use_type_invariant(&this);
        }
        let this = ManuallyDrop::new(this);
        this.raw
    }

    /// Makes a union of its word again.
    fn unerase(word: ErasedPtr) -> (this: Self)
        ensures
            this.word() == word@,
    {
        Union2 { raw: word, phantom: PhantomData }
    }
}

impl<A: ErasablePtr, B: ErasablePtr> Drop for Union2<A, B> {
    /// Restores the one pointer that the union holds and drops it.
    fn drop(&mut self)
        opens_invariants none
        no_unwind
    {
        proof {
            use_type_invariant(&*self);
        }
        let raw = self.raw;
        if check_tag(raw, MASK_2, TAG_A) {
            let _a: A = unerase_in_drop(unset_tag(raw, MASK_2, TAG_A));
        } else {
            let _b: B = unerase_in_drop(unset_tag(raw, MASK_2, TAG_B));
        }
    }
}

impl<A: ErasablePtr + PartialEq, B: ErasablePtr + PartialEq> PartialEq for Union2<A, B> {
    /// Unions are equal when they are of the same variant and their
    /// pointers are equal by the `==` of that variant's type.
    fn eq(&self, other: &Self) -> (r: bool) {
        proof {
            use_type_invariant(self);
            use_type_invariant(other);
        }
        if check_tag(self.raw, MASK_2, TAG_A) {
            check_tag(other.raw, MASK_2, TAG_A) && eq_erased::<A>(
                unset_tag(self.raw, MASK_2, TAG_A),
                unset_tag(other.raw, MASK_2, TAG_A),
            )
        } else {
            check_tag(other.raw, MASK_2, TAG_B) && eq_erased::<B>(
                unset_tag(self.raw, MASK_2, TAG_B),
                unset_tag(other.raw, MASK_2, TAG_B),
            )
        }
    }
}

impl<A: ErasablePtr + PartialEq, B: ErasablePtr + PartialEq> PartialEqSpecImpl for Union2<A, B> {
    open spec fn obeys_eq_spec() -> bool {
        &&& A::obeys_eq_spec()
        &&& B::obeys_eq_spec()
    }

    open spec fn eq_spec(&self, other: &Self) -> bool {
        match self@ {
            Enum2::A(x) => other@ matches Enum2::A(y) && x.eq_spec(&y),
            Enum2::B(x) => other@ matches Enum2::B(y) && x.eq_spec(&y),
        }
    }
}

impl<A: ErasablePtr + Eq, B: ErasablePtr + Eq> Eq for Union2<A, B> {}

impl<A: ErasablePtr + Hash, B: ErasablePtr + Hash> Hash for Union2<A, B> {
    /// Feeds the pointer that the union holds into `state`, by the `Hash`
    /// of its type.
    fn hash<S: Hasher>(&self, state: &mut S) {
        proof {
            use_type_invariant(self);
        }
        if check_tag(self.raw, MASK_2, TAG_A) {
            hash_erased::<A, S>(unset_tag(self.raw, MASK_2, TAG_A), state)
        } else {
            hash_erased::<B, S>(unset_tag(self.raw, MASK_2, TAG_B), state)
        }
    }
}

impl<A: ErasablePtr + Debug, B: ErasablePtr + Debug> Debug for Union2<A, B> {
    /// Writes the pointer that the union holds, by the `Debug` of its type,
    /// as the field of a tuple struct that is called as its variant.
    fn fmt(&self, f: &mut Formatter<'_>) -> (r: Result<(), Error>) {
        proof {
            use_type_invariant(self);
        }
        if check_tag(self.raw, MASK_2, TAG_A) {
            debug_tuple_erased::<A>("A", unset_tag(self.raw, MASK_2, TAG_A), f)
        } else {
            debug_tuple_erased::<B>("B", unset_tag(self.raw, MASK_2, TAG_B), f)
        }
    }
}

impl<A: ErasablePtr, B: ErasablePtr> Debug for Builder2<A, B> {
    /// Writes the name of the builder and, as its one field, the marker of
    /// the pointer types that it vouches for.
    fn fmt(&self, f: &mut Formatter<'_>) -> (r: Result<(), Error>) {
        debug_tuple_into("Builder2", &self.phantom, f)
    }
}

} // verus!
