//! The union of four pointers in one machine word.

use vstd::prelude::*;
use vstd::std_specs::cmp::{PartialEqSpec, PartialEqSpecImpl};
use core::fmt::{Debug, Error, Formatter};
use core::hash::{Hash, Hasher};
use core::marker::PhantomData;
use core::mem::ManuallyDrop;
use crate::erased::{
    aligned_to, is_clean, is_erasure_of, lemma_unerased, restore, unerase_in_drop, unerased,
    ErasablePtr, ErasedPtr, NeverPtr,
};
use crate::forward::{
    clone_erased, copy_erased, debug_tuple_erased, eq_erased, hash_erased, with_erased,
};
use crate::std_calls::debug_tuple_into;
use crate::tag::{
    check_tag, lemma_clean_is_multiple, lemma_set_tag, lemma_tags_fit, lemma_unset_tag, pack_word,
    set_tag, tag_of, unset_any_tag, unset_tag, untagged,
};
use crate::tag::{MASK_4, TAG_A, TAG_B, TAG_C, TAG_D};

verus! {

/// An unpacked version of [`Union4`].
#[derive(Debug, Copy, Clone, Eq, PartialEq, Hash)]
pub enum Enum4<A, B, C, D> {
    A(A),
    B(B),
    C(C),
    D(D),
}

/// The word that packs `held`: the erasure of its pointer with the tag of its
/// variant in the two lowest bits. `None` where the erasure is null or not clean
/// under the mask.
pub open spec fn packed4<A: ErasablePtr, B: ErasablePtr, C: ErasablePtr, D: ErasablePtr>(held: Enum4<A, B, C, D>) -> Option<usize> {
    match held {
        Enum4::A(a) => pack_word(a.erased(), MASK_4, TAG_A),
        Enum4::B(b) => pack_word(b.erased(), MASK_4, TAG_B),
        Enum4::C(c) => pack_word(c.erased(), MASK_4, TAG_C),
        Enum4::D(d) => pack_word(d.erased(), MASK_4, TAG_D),
    }
}

/// Whether the pointer of `held` erases to an address that leaves room for the
/// tag, so that `held` can be packed.
pub open spec fn fits4<A: ErasablePtr, B: ErasablePtr, C: ErasablePtr, D: ErasablePtr>(held: Enum4<A, B, C, D>) -> bool {
    match held {
        Enum4::A(a) => is_clean(a, MASK_4),
        Enum4::B(b) => is_clean(b, MASK_4),
        Enum4::C(c) => is_clean(c, MASK_4),
        Enum4::D(d) => is_clean(d, MASK_4),
    }
}

/// Whether `word` packs a pointer of one of the four types: its tag names a
/// variant, and without the tag it is the erasure of a pointer of that
/// variant's type.
pub open spec fn is_packed4<A: ErasablePtr, B: ErasablePtr, C: ErasablePtr, D: ErasablePtr>(word: usize) -> bool {
    &&& untagged(word, MASK_4) != 0
    &&& {
        ||| tag_of(word, MASK_4) == TAG_A && is_erasure_of::<A>(untagged(word, MASK_4))
        ||| tag_of(word, MASK_4) == TAG_B && is_erasure_of::<B>(untagged(word, MASK_4))
        ||| tag_of(word, MASK_4) == TAG_C && is_erasure_of::<C>(untagged(word, MASK_4))
        ||| tag_of(word, MASK_4) == TAG_D && is_erasure_of::<D>(untagged(word, MASK_4))
    }
}

/// The pointer that `word` packs, in the variant that the tag of `word` names.
pub open spec fn unpacked4<A: ErasablePtr, B: ErasablePtr, C: ErasablePtr, D: ErasablePtr>(word: usize) -> Enum4<A, B, C, D> {
    if tag_of(word, MASK_4) == TAG_A {
        Enum4::A(unerased::<A>(untagged(word, MASK_4)))
    } else if tag_of(word, MASK_4) == TAG_B {
        Enum4::B(unerased::<B>(untagged(word, MASK_4)))
    } else if tag_of(word, MASK_4) == TAG_C {
        Enum4::C(unerased::<C>(untagged(word, MASK_4)))
    } else {
        Enum4::D(unerased::<D>(untagged(word, MASK_4)))
    }
}

/// Unpacking the word that packs `held` gives `held` again.
pub proof fn lemma_unpack_packed4<A: ErasablePtr, B: ErasablePtr, C: ErasablePtr, D: ErasablePtr>(held: Enum4<A, B, C, D>)
    requires
        packed4(held) is Some,
    ensures
        is_packed4::<A, B, C, D>(packed4(held).unwrap()),
        unpacked4::<A, B, C, D>(packed4(held).unwrap()) == held,
{
    lemma_tags_fit();
    match held {
        Enum4::A(a) => {
            lemma_set_tag(a.erased().unwrap(), MASK_4, TAG_A);
            lemma_unerased(a, a.erased().unwrap());
        },
        Enum4::B(b) => {
            lemma_set_tag(b.erased().unwrap(), MASK_4, TAG_B);
            lemma_unerased(b, b.erased().unwrap());
        },
        Enum4::C(c) => {
            lemma_set_tag(c.erased().unwrap(), MASK_4, TAG_C);
            lemma_unerased(c, c.erased().unwrap());
        },
        Enum4::D(d) => {
            lemma_set_tag(d.erased().unwrap(), MASK_4, TAG_D);
            lemma_unerased(d, d.erased().unwrap());
        },
    }
}

/// Round trip: packing what a packed word unpacks to gives the same word,
/// bit for bit.
pub proof fn lemma_pack_unpacked4<A: ErasablePtr, B: ErasablePtr, C: ErasablePtr, D: ErasablePtr>(word: usize)
    requires
        is_packed4::<A, B, C, D>(word),
    ensures
        packed4(unpacked4::<A, B, C, D>(word)) == Some(word),
{
    lemma_unset_tag(word, MASK_4);
}

/// Round trip: a pointer that is packed, unpacked and packed again gives the
/// word that packing it gave at first, bit for bit.
pub proof fn lemma_round_trip4<A: ErasablePtr, B: ErasablePtr, C: ErasablePtr, D: ErasablePtr>(held: Enum4<A, B, C, D>)
    requires
        packed4(held) is Some,
    ensures
        packed4(unpacked4::<A, B, C, D>(packed4(held).unwrap())) == packed4(held),
{
    lemma_unpack_packed4(held);
}

/// Identity: two packed words are the same word exactly when they pack the
/// same pointer in the same variant.
pub proof fn lemma_same_word_same_pointer4<A: ErasablePtr, B: ErasablePtr, C: ErasablePtr, D: ErasablePtr>(left: usize, right: usize)
    requires
        is_packed4::<A, B, C, D>(left),
        is_packed4::<A, B, C, D>(right),
    ensures
        left == right <==> unpacked4::<A, B, C, D>(left) == unpacked4::<A, B, C, D>(right),
{
    lemma_pack_unpacked4::<A, B, C, D>(left);
    lemma_pack_unpacked4::<A, B, C, D>(right);
}

/// Exclusivity: a packed word is of exactly one variant. Its tag is the tag
/// of the variant that it unpacks to, and of no other.
pub proof fn lemma_exclusive4<A: ErasablePtr, B: ErasablePtr, C: ErasablePtr, D: ErasablePtr>(word: usize)
    requires
        is_packed4::<A, B, C, D>(word),
    ensures
        unpacked4::<A, B, C, D>(word) is A <==> tag_of(word, MASK_4) == TAG_A,
        unpacked4::<A, B, C, D>(word) is B <==> tag_of(word, MASK_4) == TAG_B,
        unpacked4::<A, B, C, D>(word) is C <==> tag_of(word, MASK_4) == TAG_C,
        unpacked4::<A, B, C, D>(word) is D <==> tag_of(word, MASK_4) == TAG_D,
{
}

/// A builder for [`Union4`].
///
/// An instance of this builder is evidence that every pointer of its types
/// erases to an address that is a multiple of four, so that a union can be
/// made of any of them without a check.
pub struct Builder4<A: ErasablePtr, B: ErasablePtr, C: ErasablePtr, D: ErasablePtr = NeverPtr> {
    phantom: PhantomData<Enum4<A, B, C, D>>,
}

impl<A: ErasablePtr, B: ErasablePtr, C: ErasablePtr, D: ErasablePtr> Clone for Builder4<A, B, C, D> {
    /// A builder is evidence and no more: a copy of it is the same evidence.
    fn clone(&self) -> (r: Self)
        ensures
            r == *self,
    {
        *self
    }
}

impl<A: ErasablePtr, B: ErasablePtr, C: ErasablePtr, D: ErasablePtr> Copy for Builder4<A, B, C, D> {}

impl<A: ErasablePtr, B: ErasablePtr, C: ErasablePtr, D: ErasablePtr> Builder4<A, B, C, D> {
    #[verifier::type_invariant]
    spec fn alignment_holds(self) -> bool {
        Self::safe_to_build()
    }

    /// What a builder is evidence of: the erasure of every pointer of its
    /// types is clean under the mask of the union.
    pub open spec fn safe_to_build() -> bool {
        &&& aligned_to::<A>(MASK_4)
        &&& aligned_to::<B>(MASK_4)
        &&& aligned_to::<C>(MASK_4)
        &&& aligned_to::<D>(MASK_4)
    }

    /// Assert that creating pointer unions of these types is safe.
    ///
    /// The alignment of the pointer types must meet the requirement of the
    /// union; nothing checks it when the program runs.
    pub fn new_unchecked() -> (r: Self)
        requires
            Self::safe_to_build(),
    {
        Builder4 { phantom: PhantomData }
    }

    /// Construct a union at this variant.
    pub fn a(self, this: A) -> (r: Union4<A, B, C, D>)
        ensures
            r@ == Enum4::<A, B, C, D>::A(this),
            packed4(Enum4::<A, B, C, D>::A(this)) == Some(r.word()),
    {
        proof {
            use_type_invariant(&self);
        }
        Enum4::<A, B, C, D>::A(this).pack_unchecked()
    }

    /// Construct a union at this variant.
    pub fn b(self, this: B) -> (r: Union4<A, B, C, D>)
        ensures
            r@ == Enum4::<A, B, C, D>::B(this),
            packed4(Enum4::<A, B, C, D>::B(this)) == Some(r.word()),
    {
        proof {
            use_type_invariant(&self);
        }
        Enum4::<A, B, C, D>::B(this).pack_unchecked()
    }

    /// Construct a union at this variant.
    pub fn c(self, this: C) -> (r: Union4<A, B, C, D>)
        ensures
            r@ == Enum4::<A, B, C, D>::C(this),
            packed4(Enum4::<A, B, C, D>::C(this)) == Some(r.word()),
    {
        proof {
            use_type_invariant(&self);
        }
        Enum4::<A, B, C, D>::C(this).pack_unchecked()
    }

    /// Construct a union at this variant.
    pub fn d(self, this: D) -> (r: Union4<A, B, C, D>)
        ensures
            r@ == Enum4::<A, B, C, D>::D(this),
            packed4(Enum4::<A, B, C, D>::D(this)) == Some(r.word()),
    {
        proof {
            use_type_invariant(&self);
        }
        Enum4::<A, B, C, D>::D(this).pack_unchecked()
    }
}

impl<A: ErasablePtr, B: ErasablePtr, C: ErasablePtr, D: ErasablePtr> Enum4<A, B, C, D> {
    /// Pack this loose enum into a pointer union.
    pub fn pack(self, builder: Builder4<A, B, C, D>) -> (r: Union4<A, B, C, D>)
        ensures
            r@ == self,
            packed4(self) == Some(r.word()),
    {
        match self {
            Enum4::A(this) => builder.a(this),
            Enum4::B(this) => builder.b(this),
            Enum4::C(this) => builder.c(this),
            Enum4::D(this) => builder.d(this),
        }
    }

    /// Pack this loose enum into a pointer union, with a dynamic alignment
    /// check. Returns the enum on error.
    pub fn try_pack(self) -> (r: Result<Union4<A, B, C, D>, Self>)
        ensures
            r is Ok <==> fits4(self),
            match r {
                Ok(made) => made@ == self && packed4(self) == Some(made.word()),
                Err(back) => back == self,
            },
    {
        match self {
            Enum4::A(this) => match Union4::new_a(this) {
                Ok(made) => Ok(made),
                Err(back) => Err(Enum4::A(back)),
            },
            Enum4::B(this) => match Union4::new_b(this) {
                Ok(made) => Ok(made),
                Err(back) => Err(Enum4::B(back)),
            },
            Enum4::C(this) => match Union4::new_c(this) {
                Ok(made) => Ok(made),
                Err(back) => Err(Enum4::C(back)),
            },
            Enum4::D(this) => match Union4::new_d(this) {
                Ok(made) => Ok(made),
                Err(back) => Err(Enum4::D(back)),
            },
        }
    }

    /// Pack this loose enum into a pointer union.
    ///
    /// The pointer packed must be properly aligned. Only the pointer that is
    /// packed is restricted, not the other pointer types of the union.
    pub fn pack_unchecked(self) -> (r: Union4<A, B, C, D>)
        requires
            fits4(self),
        ensures
            r@ == self,
            packed4(self) == Some(r.word()),
    {
        proof {
            lemma_tags_fit();
        }
        match self {
            Enum4::A(this) => {
                let word = A::erase(this);
                proof {
                    use_type_invariant(&word);
                    word.lemma_non_null();
                    lemma_unpack_packed4(self);
                }
                Union4 { raw: set_tag(word, MASK_4, TAG_A), phantom: PhantomData }
            },
            Enum4::B(this) => {
                let word = B::erase(this);
                proof {
                    use_type_invariant(&word);
                    word.lemma_non_null();
                    lemma_unpack_packed4(self);
                }
                Union4 { raw: set_tag(word, MASK_4, TAG_B), phantom: PhantomData }
            },
            Enum4::C(this) => {
                let word = C::erase(this);
                proof {
                    use_type_invariant(&word);
                    word.lemma_non_null();
                    lemma_unpack_packed4(self);
                }
                Union4 { raw: set_tag(word, MASK_4, TAG_C), phantom: PhantomData }
            },
            Enum4::D(this) => {
                let word = D::erase(this);
                proof {
                    use_type_invariant(&word);
                    word.lemma_non_null();
                    lemma_unpack_packed4(self);
                }
                Union4 { raw: set_tag(word, MASK_4, TAG_D), phantom: PhantomData }
            },
        }
    }
}

/// A pointer union of four pointer types.
///
/// This is a tagged union of four pointer types that is only as big as a
/// single pointer: the tag is kept in the two lowest bits of the address. As
/// such, the pointer must be aligned to at least four bytes, which
/// [`Builder4`] vouches for and the `new_` constructors check.
///
/// The last pointer types may be left out to make a smaller union.
///
/// The view of a union is the pointer that it holds, as an [`Enum4`].
pub struct Union4<A: ErasablePtr, B: ErasablePtr, C: ErasablePtr, D: ErasablePtr = NeverPtr> {
    raw: ErasedPtr,
    phantom: PhantomData<Enum4<A, B, C, D>>,
}

impl<A: ErasablePtr, B: ErasablePtr, C: ErasablePtr, D: ErasablePtr> View for Union4<A, B, C, D> {
    type V = Enum4<A, B, C, D>;

    open spec fn view(&self) -> Enum4<A, B, C, D> {
        unpacked4::<A, B, C, D>(self.word())
    }
}

impl<A: ErasablePtr, B: ErasablePtr, C: ErasablePtr, D: ErasablePtr> Union4<A, B, C, D> {
    /// The tagged word that is all there is of this union.
    pub closed spec fn word(self) -> usize {
        self.raw@
    }

    /// Whether the word of this union packs a pointer of one of its variants.
    /// This holds of every union that a program can reach.
    #[verifier::type_invariant]
    pub open spec fn wf(self) -> bool {
        is_packed4::<A, B, C, D>(self.word())
    }

    /// Whether this union and `other` are the same variant and hold the same
    /// pointer: whether they are the same word.
    pub open spec fn same_pointer(self, other: Self) -> bool {
        self.word() == other.word()
    }

    /// Being the same pointer is reflexive, symmetric and transitive, and
    /// unions that are the same pointer hold the same pointer.
    pub proof fn lemma_same_pointer(self, other: Self, third: Self)
        requires
            self.wf(),
            other.wf(),
        ensures
            self.same_pointer(self),
            self.same_pointer(other) == other.same_pointer(self),
            self.same_pointer(other) && other.same_pointer(third) ==> self.same_pointer(third),
            self.same_pointer(other) <==> self@ == other@,
    {
        lemma_same_word_same_pointer4::<A, B, C, D>(self.word(), other.word());
    }

    /// Unions with the same word are the same union.
    pub proof fn lemma_same_word(self, other: Self)
        requires
            self.word() == other.word(),
        ensures
            self == other,
    {
        self.raw.lemma_same_address(other.raw);
    }

    /// Construct a variant of this union with a dynamic alignment check.
    ///
    /// Returns the pointer on error.
    pub fn new_a(a: A) -> (r: Result<Self, A>)
        ensures
            a.erased() is Some,
            r is Ok <==> a.erased().unwrap() % 4 == 0,
            r is Ok <==> is_clean(a, MASK_4),
            match r {
                Ok(made) => made@ == Enum4::<A, B, C, D>::A(a)
                    && packed4(Enum4::<A, B, C, D>::A(a)) == Some(made.word()),
                Err(back) => back == a,
            },
    {
        let word = A::erase(a);
        proof {
            use_type_invariant(&word);
            word.lemma_non_null();
            lemma_tags_fit();
            lemma_clean_is_multiple(word@);
        }
        if check_tag(word, MASK_4, 0) {
            proof {
                lemma_unpack_packed4(Enum4::<A, B, C, D>::A(a));
            }
            Ok(Union4 { raw: set_tag(word, MASK_4, TAG_A), phantom: PhantomData })
        } else {
            proof {
                lemma_unerased(a, word@);
            }
            Err(restore::<A>(word))
        }
    }

    /// Check if the union is this variant.
    pub fn is_a(&self) -> (r: bool)
        ensures
            r == (self@ is A),
            r == (tag_of(self.word(), MASK_4) == TAG_A),
    {
        proof {
            use_type_invariant(self);
        }
        check_tag(self.raw, MASK_4, TAG_A)
    }

    /// Extract this variant from the union.
    ///
    /// Returns the union on error.
    pub fn into_a(self) -> (r: Result<A, Self>)
        ensures
            match r {
                Ok(this) => self@ == Enum4::<A, B, C, D>::A(this),
                Err(back) => !(self@ is A) && back == self,
            },
    {
        if self.is_a() {
            proof {
                use_type_invariant(&self);
            }
            let this = ManuallyDrop::new(self);
            Ok(restore::<A>(unset_tag(this.raw, MASK_4, TAG_A)))
        } else {
            Err(self)
        }
    }

    /// Run a closure with this variant.
    pub fn with_a<R, Func: FnOnce(&A) -> R>(&self, func: Func) -> (r: Option<R>)
        requires
            self@ matches Enum4::A(this) ==> func.requires((&this,)),
        ensures
            match r {
                Some(x) => self@ matches Enum4::A(this) && func.ensures((&this,), x),
                None => !(self@ is A),
            },
    {
        if self.is_a() {
            proof {
                use_type_invariant(self);
            }
            Some(with_erased::<A, R, Func>(unset_tag(self.raw, MASK_4, TAG_A), func))
        } else {
            None
        }
    }

    /// Clone this variant out of the union.
    pub fn clone_a(&self) -> (r: Option<A>) where A: Clone
        ensures
            match r {
                Some(twin) => self@ matches Enum4::A(this) && cloned::<A>(this, twin),
                None => !(self@ is A),
            },
    {
        if self.is_a() {
            proof {
                use_type_invariant(self);
            }
            Some(clone_erased::<A>(unset_tag(self.raw, MASK_4, TAG_A)))
        } else {
            None
        }
    }

    /// Copy this variant out of the union.
    pub fn copy_a(&self) -> (r: Option<A>) where A: Copy
        ensures
            match r {
                Some(twin) => self@ == Enum4::<A, B, C, D>::A(twin),
                None => !(self@ is A),
            },
    {
        if self.is_a() {
            proof {
                use_type_invariant(self);
            }
            Some(copy_erased::<A>(unset_tag(self.raw, MASK_4, TAG_A)))
        } else {
            None
        }
    }

    /// Construct a variant of this union with a dynamic alignment check.
    ///
    /// Returns the pointer on error.
    pub fn new_b(b: B) -> (r: Result<Self, B>)
        ensures
            b.erased() is Some,
            r is Ok <==> b.erased().unwrap() % 4 == 0,
            r is Ok <==> is_clean(b, MASK_4),
            match r {
                Ok(made) => made@ == Enum4::<A, B, C, D>::B(b)
                    && packed4(Enum4::<A, B, C, D>::B(b)) == Some(made.word()),
                Err(back) => back == b,
            },
    {
        let word = B::erase(b);
        proof {
            use_type_invariant(&word);
            word.lemma_non_null();
            lemma_tags_fit();
            lemma_clean_is_multiple(word@);
        }
        if check_tag(word, MASK_4, 0) {
            proof {
                lemma_unpack_packed4(Enum4::<A, B, C, D>::B(b));
            }
            Ok(Union4 { raw: set_tag(word, MASK_4, TAG_B), phantom: PhantomData })
        } else {
            proof {
                lemma_unerased(b, word@);
            }
            Err(restore::<B>(word))
        }
    }

    /// Check if the union is this variant.
    pub fn is_b(&self) -> (r: bool)
        ensures
            r == (self@ is B),
            r == (tag_of(self.word(), MASK_4) == TAG_B),
    {
        proof {
            use_type_invariant(self);
        }
        check_tag(self.raw, MASK_4, TAG_B)
    }

    /// Extract this variant from the union.
    ///
    /// Returns the union on error.
    pub fn into_b(self) -> (r: Result<B, Self>)
        ensures
            match r {
                Ok(this) => self@ == Enum4::<A, B, C, D>::B(this),
                Err(back) => !(self@ is B) && back == self,
            },
    {
        if self.is_b() {
            proof {
                use_type_invariant(&self);
            }
            let this = ManuallyDrop::new(self);
            Ok(restore::<B>(unset_tag(this.raw, MASK_4, TAG_B)))
        } else {
            Err(self)
        }
    }

    /// Run a closure with this variant.
    pub fn with_b<R, Func: FnOnce(&B) -> R>(&self, func: Func) -> (r: Option<R>)
        requires
            self@ matches Enum4::B(this) ==> func.requires((&this,)),
        ensures
            match r {
                Some(x) => self@ matches Enum4::B(this) && func.ensures((&this,), x),
                None => !(self@ is B),
            },
    {
        if self.is_b() {
            proof {
                use_type_invariant(self);
            }
            Some(with_erased::<B, R, Func>(unset_tag(self.raw, MASK_4, TAG_B), func))
        } else {
            None
        }
    }

    /// Clone this variant out of the union.
    pub fn clone_b(&self) -> (r: Option<B>) where B: Clone
        ensures
            match r {
                Some(twin) => self@ matches Enum4::B(this) && cloned::<B>(this, twin),
                None => !(self@ is B),
            },
    {
        if self.is_b() {
            proof {
                use_type_invariant(self);
            }
            Some(clone_erased::<B>(unset_tag(self.raw, MASK_4, TAG_B)))
        } else {
            None
        }
    }

    /// Copy this variant out of the union.
    pub fn copy_b(&self) -> (r: Option<B>) where B: Copy
        ensures
            match r {
                Some(twin) => self@ == Enum4::<A, B, C, D>::B(twin),
                None => !(self@ is B),
            },
    {
        if self.is_b() {
            proof {
                use_type_invariant(self);
            }
            Some(copy_erased::<B>(unset_tag(self.raw, MASK_4, TAG_B)))
        } else {
            None
        }
    }

    /// Construct a variant of this union with a dynamic alignment check.
    ///
    /// Returns the pointer on error.
    pub fn new_c(c: C) -> (r: Result<Self, C>)
        ensures
            c.erased() is Some,
            r is Ok <==> c.erased().unwrap() % 4 == 0,
            r is Ok <==> is_clean(c, MASK_4),
            match r {
                Ok(made) => made@ == Enum4::<A, B, C, D>::C(c)
                    && packed4(Enum4::<A, B, C, D>::C(c)) == Some(made.word()),
                Err(back) => back == c,
            },
    {
        let word = C::erase(c);
        proof {
            use_type_invariant(&word);
            word.lemma_non_null();
            lemma_tags_fit();
            lemma_clean_is_multiple(word@);
        }
        if check_tag(word, MASK_4, 0) {
            proof {
                lemma_unpack_packed4(Enum4::<A, B, C, D>::C(c));
            }
            Ok(Union4 { raw: set_tag(word, MASK_4, TAG_C), phantom: PhantomData })
        } else {
            proof {
                lemma_unerased(c, word@);
            }
            Err(restore::<C>(word))
        }
    }

    /// Check if the union is this variant.
    pub fn is_c(&self) -> (r: bool)
        ensures
            r == (self@ is C),
            r == (tag_of(self.word(), MASK_4) == TAG_C),
    {
        proof {
            use_type_invariant(self);
        }
        check_tag(self.raw, MASK_4, TAG_C)
    }

    /// Extract this variant from the union.
    ///
    /// Returns the union on error.
    pub fn into_c(self) -> (r: Result<C, Self>)
        ensures
            match r {
                Ok(this) => self@ == Enum4::<A, B, C, D>::C(this),
                Err(back) => !(self@ is C) && back == self,
            },
    {
        if self.is_c() {
            proof {
                use_type_invariant(&self);
            }
            let this = ManuallyDrop::new(self);
            Ok(restore::<C>(unset_tag(this.raw, MASK_4, TAG_C)))
        } else {
            Err(self)
        }
    }

    /// Run a closure with this variant.
    pub fn with_c<R, Func: FnOnce(&C) -> R>(&self, func: Func) -> (r: Option<R>)
        requires
            self@ matches Enum4::C(this) ==> func.requires((&this,)),
        ensures
            match r {
                Some(x) => self@ matches Enum4::C(this) && func.ensures((&this,), x),
                None => !(self@ is C),
            },
    {
        if self.is_c() {
            proof {
                use_type_invariant(self);
            }
            Some(with_erased::<C, R, Func>(unset_tag(self.raw, MASK_4, TAG_C), func))
        } else {
            None
        }
    }

    /// Clone this variant out of the union.
    pub fn clone_c(&self) -> (r: Option<C>) where C: Clone
        ensures
            match r {
                Some(twin) => self@ matches Enum4::C(this) && cloned::<C>(this, twin),
                None => !(self@ is C),
            },
    {
        if self.is_c() {
            proof {
                use_type_invariant(self);
            }
            Some(clone_erased::<C>(unset_tag(self.raw, MASK_4, TAG_C)))
        } else {
            None
        }
    }

    /// Copy this variant out of the union.
    pub fn copy_c(&self) -> (r: Option<C>) where C: Copy
        ensures
            match r {
                Some(twin) => self@ == Enum4::<A, B, C, D>::C(twin),
                None => !(self@ is C),
            },
    {
        if self.is_c() {
            proof {
                use_type_invariant(self);
            }
            Some(copy_erased::<C>(unset_tag(self.raw, MASK_4, TAG_C)))
        } else {
            None
        }
    }

    /// Construct a variant of this union with a dynamic alignment check.
    ///
    /// Returns the pointer on error.
    pub fn new_d(d: D) -> (r: Result<Self, D>)
        ensures
            d.erased() is Some,
            r is Ok <==> d.erased().unwrap() % 4 == 0,
            r is Ok <==> is_clean(d, MASK_4),
            match r {
                Ok(made) => made@ == Enum4::<A, B, C, D>::D(d)
                    && packed4(Enum4::<A, B, C, D>::D(d)) == Some(made.word()),
                Err(back) => back == d,
            },
    {
        let word = D::erase(d);
        proof {
            use_type_invariant(&word);
            word.lemma_non_null();
            lemma_tags_fit();
            lemma_clean_is_multiple(word@);
        }
        if check_tag(word, MASK_4, 0) {
            proof {
                lemma_unpack_packed4(Enum4::<A, B, C, D>::D(d));
            }
            Ok(Union4 { raw: set_tag(word, MASK_4, TAG_D), phantom: PhantomData })
        } else {
            proof {
                lemma_unerased(d, word@);
            }
            Err(restore::<D>(word))
        }
    }

    /// Check if the union is this variant.
    pub fn is_d(&self) -> (r: bool)
        ensures
            r == (self@ is D),
            r == (tag_of(self.word(), MASK_4) == TAG_D),
    {
        proof {
            use_type_invariant(self);
        }
        check_tag(self.raw, MASK_4, TAG_D)
    }

    /// Extract this variant from the union.
    ///
    /// Returns the union on error.
    pub fn into_d(self) -> (r: Result<D, Self>)
        ensures
            match r {
                Ok(this) => self@ == Enum4::<A, B, C, D>::D(this),
                Err(back) => !(self@ is D) && back == self,
            },
    {
        if self.is_d() {
            proof {
                use_type_invariant(&self);
            }
            let this = ManuallyDrop::new(self);
            Ok(restore::<D>(unset_tag(this.raw, MASK_4, TAG_D)))
        } else {
            Err(self)
        }
    }

    /// Run a closure with this variant.
    pub fn with_d<R, Func: FnOnce(&D) -> R>(&self, func: Func) -> (r: Option<R>)
        requires
            self@ matches Enum4::D(this) ==> func.requires((&this,)),
        ensures
            match r {
                Some(x) => self@ matches Enum4::D(this) && func.ensures((&this,), x),
                None => !(self@ is D),
            },
    {
        if self.is_d() {
            proof {
                use_type_invariant(self);
            }
            Some(with_erased::<D, R, Func>(unset_tag(self.raw, MASK_4, TAG_D), func))
        } else {
            None
        }
    }

    /// Clone this variant out of the union.
    pub fn clone_d(&self) -> (r: Option<D>) where D: Clone
        ensures
            match r {
                Some(twin) => self@ matches Enum4::D(this) && cloned::<D>(this, twin),
                None => !(self@ is D),
            },
    {
        if self.is_d() {
            proof {
                use_type_invariant(self);
            }
            Some(clone_erased::<D>(unset_tag(self.raw, MASK_4, TAG_D)))
        } else {
            None
        }
    }

    /// Copy this variant out of the union.
    pub fn copy_d(&self) -> (r: Option<D>) where D: Copy
        ensures
            match r {
                Some(twin) => self@ == Enum4::<A, B, C, D>::D(twin),
                None => !(self@ is D),
            },
    {
        if self.is_d() {
            proof {
                use_type_invariant(self);
            }
            Some(copy_erased::<D>(unset_tag(self.raw, MASK_4, TAG_D)))
        } else {
            None
        }
    }

    /// Unpack this union into an enum.
    pub fn unpack(self) -> (r: Enum4<A, B, C, D>)
        ensures
            r == self@,
            packed4(r) == Some(self.word()),
    {
        proof {
            use_type_invariant(&self);
            lemma_pack_unpacked4::<A, B, C, D>(self.word());
        }
        let this = ManuallyDrop::new(self);
        let raw = this.raw;
        if check_tag(raw, MASK_4, TAG_A) {
            Enum4::A(restore::<A>(unset_tag(raw, MASK_4, TAG_A)))
        } else if check_tag(raw, MASK_4, TAG_B) {
            Enum4::B(restore::<B>(unset_tag(raw, MASK_4, TAG_B)))
        } else if check_tag(raw, MASK_4, TAG_C) {
            Enum4::C(restore::<C>(unset_tag(raw, MASK_4, TAG_C)))
        } else {
            Enum4::D(restore::<D>(unset_tag(raw, MASK_4, TAG_D)))
        }
    }

    /// Check if two unions are the same variant and point to the same value
    /// (not that the values compare as equal).
    pub fn ptr_eq(&self, other: &Self) -> (r: bool)
        ensures
            r == self.same_pointer(*other),
            r == (self@ == other@),
    {
        proof {
            use_type_invariant(self);
            use_type_invariant(other);
            lemma_same_word_same_pointer4::<A, B, C, D>(self.word(), other.word());
        }
        self.raw.addr() == other.raw.addr()
    }

    /// Get the raw type-erased untagged pointer to the payload.
    pub fn as_untagged_ptr(&self) -> (r: ErasedPtr)
        ensures
            r@ == untagged(self.word(), MASK_4),
            match self@ {
                Enum4::A(a) => a.erased() == Some(r@),
                Enum4::B(b) => b.erased() == Some(r@),
                Enum4::C(c) => c.erased() == Some(r@),
                Enum4::D(d) => d.erased() == Some(r@),
            },
    {
        proof {
            use_type_invariant(self);
        }
        unset_any_tag(self.raw, MASK_4)
    }
}

impl<A: ErasablePtr + Clone, B: ErasablePtr + Clone, C: ErasablePtr + Clone, D: ErasablePtr + Clone> Union4<A, B, C, D> {
    /// Whether whatever a clone of the pointer in this union may be, it
    /// erases to an address that leaves room for the tag.
    pub open spec fn clones_fit(self) -> bool {
        match self@ {
            Enum4::A(this) => forall|twin: A| cloned::<A>(this, twin) ==> is_clean(twin, MASK_4),
            Enum4::B(this) => forall|twin: B| cloned::<B>(this, twin) ==> is_clean(twin, MASK_4),
            Enum4::C(this) => forall|twin: C| cloned::<C>(this, twin) ==> is_clean(twin, MASK_4),
            Enum4::D(this) => forall|twin: D| cloned::<D>(this, twin) ==> is_clean(twin, MASK_4),
        }
    }

    /// Whether `other` holds a clone of the pointer in this union, in the
    /// same variant.
    pub open spec fn is_cloned_by(self, other: Self) -> bool {
        match self@ {
            Enum4::A(this) => other@ matches Enum4::A(twin) && cloned::<A>(this, twin),
            Enum4::B(this) => other@ matches Enum4::B(twin) && cloned::<B>(this, twin),
            Enum4::C(this) => other@ matches Enum4::C(twin) && cloned::<C>(this, twin),
            Enum4::D(this) => other@ matches Enum4::D(twin) && cloned::<D>(this, twin),
        }
    }

    /// Clone the pointer in this union into a union of its own.
    ///
    /// The clone must be aligned as the union requires, which holds where
    /// the pointer types are safe to build a union from. Where that is not
    /// known, use `try_clone`.
    pub fn clone(&self) -> (r: Self)
        requires
            self.clones_fit(),
        ensures
            self.is_cloned_by(r),
    {
        proof {
            use_type_invariant(self);
        }
        if check_tag(self.raw, MASK_4, TAG_A) {
            let twin = clone_erased::<A>(unset_tag(self.raw, MASK_4, TAG_A));
            Enum4::<A, B, C, D>::A(twin).pack_unchecked()
        } else if check_tag(self.raw, MASK_4, TAG_B) {
            let twin = clone_erased::<B>(unset_tag(self.raw, MASK_4, TAG_B));
            Enum4::<A, B, C, D>::B(twin).pack_unchecked()
        } else if check_tag(self.raw, MASK_4, TAG_C) {
            let twin = clone_erased::<C>(unset_tag(self.raw, MASK_4, TAG_C));
            Enum4::<A, B, C, D>::C(twin).pack_unchecked()
        } else {
            let twin = clone_erased::<D>(unset_tag(self.raw, MASK_4, TAG_D));
            Enum4::<A, B, C, D>::D(twin).pack_unchecked()
        }
    }

    /// Clone the pointer in this union into a union of its own, with a
    /// dynamic alignment check on the clone.
    ///
    /// Returns `None`, and drops the clone, where the clone is not aligned
    /// as the union requires.
    pub fn try_clone(&self) -> (r: Option<Self>)
        ensures
            match r {
                Some(made) => self.is_cloned_by(made),
                None => !self.clones_fit(),
            },
    {
        proof {
            use_type_invariant(self);
        }
        if check_tag(self.raw, MASK_4, TAG_A) {
            let twin = clone_erased::<A>(unset_tag(self.raw, MASK_4, TAG_A));
            match Union4::new_a(twin) {
                Ok(made) => Some(made),
                Err(_) => None,
            }
        } else if check_tag(self.raw, MASK_4, TAG_B) {
            let twin = clone_erased::<B>(unset_tag(self.raw, MASK_4, TAG_B));
            match Union4::new_b(twin) {
                Ok(made) => Some(made),
                Err(_) => None,
            }
        } else if check_tag(self.raw, MASK_4, TAG_C) {
            let twin = clone_erased::<C>(unset_tag(self.raw, MASK_4, TAG_C));
            match Union4::new_c(twin) {
                Ok(made) => Some(made),
                Err(_) => None,
            }
        } else {
            let twin = clone_erased::<D>(unset_tag(self.raw, MASK_4, TAG_D));
            match Union4::new_d(twin) {
                Ok(made) => Some(made),
                Err(_) => None,
            }
        }
    }
}

impl<A: ErasablePtr, B: ErasablePtr, C: ErasablePtr, D: ErasablePtr> ErasablePtr for Union4<A, B, C, D> {
    /// A union erases to its word, tag and all.
    open spec fn erased(self) -> Option<usize> {
        if self.wf() {
            Some(self.word())
        } else {
            None
        }
    }

    proof fn erased_is_injective(a: Self, b: Self) {
        if a.erased() is Some && a.erased() == b.erased() {
            a.lemma_same_word(b);
        }
    }

    /// Gives the word of the union, which keeps what the union owned.
    fn erase(this: Self) -> (word: ErasedPtr)
        ensures
            word@ == this.word(),
    {
        proof {
            use_type_invariant(&this);
        }
        let this = ManuallyDrop::new(this);
        this.raw
    }

    /// Makes a union of its word again.
    fn unerase(word: ErasedPtr) -> (this: Self)
        ensures
            this.word() == word@,
    {
        Union4 { raw: word, phantom: PhantomData }
    }
}

impl<A: ErasablePtr, B: ErasablePtr, C: ErasablePtr, D: ErasablePtr> Drop for Union4<A, B, C, D> {
    /// Restores the one pointer that the union holds and drops it.
    fn drop(&mut self)
        opens_invariants none
        no_unwind
    {
        proof {
            use_type_invariant(&*self);
        }
        let raw = self.raw;
        if check_tag(raw, MASK_4, TAG_A) {
            let _a: A = unerase_in_drop(unset_tag(raw, MASK_4, TAG_A));
        } else if check_tag(raw, MASK_4, TAG_B) {
            let _b: B = unerase_in_drop(unset_tag(raw, MASK_4, TAG_B));
        } else if check_tag(raw, MASK_4, TAG_C) {
            let _c: C = unerase_in_drop(unset_tag(raw, MASK_4, TAG_C));
        } else {
            let _d: D = unerase_in_drop(unset_tag(raw, MASK_4, TAG_D));
        }
    }
}

impl<A: ErasablePtr + PartialEq, B: ErasablePtr + PartialEq, C: ErasablePtr + PartialEq, D: ErasablePtr + PartialEq> PartialEq for Union4<A, B, C, D> {
    /// Unions are equal when they are of the same variant and their
    /// pointers are equal by the `==` of that variant's type.
    fn eq(&self, other: &Self) -> (r: bool) {
        proof {
            use_type_invariant(self);
            use_type_invariant(other);
        }
        if check_tag(self.raw, MASK_4, TAG_A) {
            check_tag(other.raw, MASK_4, TAG_A) && eq_erased::<A>(
                unset_tag(self.raw, MASK_4, TAG_A),
                unset_tag(other.raw, MASK_4, TAG_A),
            )
        } else if check_tag(self.raw, MASK_4, TAG_B) {
            check_tag(other.raw, MASK_4, TAG_B) && eq_erased::<B>(
                unset_tag(self.raw, MASK_4, TAG_B),
                unset_tag(other.raw, MASK_4, TAG_B),
            )
        } else if check_tag(self.raw, MASK_4, TAG_C) {
            check_tag(other.raw, MASK_4, TAG_C) && eq_erased::<C>(
                unset_tag(self.raw, MASK_4, TAG_C),
                unset_tag(other.raw, MASK_4, TAG_C),
            )
        } else {
            check_tag(other.raw, MASK_4, TAG_D) && eq_erased::<D>(
                unset_tag(self.raw, MASK_4, TAG_D),
                unset_tag(other.raw, MASK_4, TAG_D),
            )
        }
    }
}

impl<A: ErasablePtr + PartialEq, B: ErasablePtr + PartialEq, C: ErasablePtr + PartialEq, D: ErasablePtr + PartialEq> PartialEqSpecImpl for Union4<A, B, C, D> {
    open spec fn obeys_eq_spec() -> bool {
        &&& A::obeys_eq_spec()
        &&& B::obeys_eq_spec()
        &&& C::obeys_eq_spec()
        &&& D::obeys_eq_spec()
    }

    open spec fn eq_spec(&self, other: &Self) -> bool {
        match self@ {
            Enum4::A(x) => other@ matches Enum4::A(y) && x.eq_spec(&y),
            Enum4::B(x) => other@ matches Enum4::B(y) && x.eq_spec(&y),
            Enum4::C(x) => other@ matches Enum4::C(y) && x.eq_spec(&y),
            Enum4::D(x) => other@ matches Enum4::D(y) && x.eq_spec(&y),
        }
    }
}

impl<A: ErasablePtr + Eq, B: ErasablePtr + Eq, C: ErasablePtr + Eq, D: ErasablePtr + Eq> Eq for Union4<A, B, C, D> {}

impl<A: ErasablePtr + Hash, B: ErasablePtr + Hash, C: ErasablePtr + Hash, D: ErasablePtr + Hash> Hash for Union4<A, B, C, D> {
    /// Feeds the pointer that the union holds into `state`, by the `Hash`
    /// of its type.
    fn hash<S: Hasher>(&self, state: &mut S) {
        proof {
            use_type_invariant(self);
        }
        if check_tag(self.raw, MASK_4, TAG_A) {
            hash_erased::<A, S>(unset_tag(self.raw, MASK_4, TAG_A), state)
        } else if check_tag(self.raw, MASK_4, TAG_B) {
            hash_erased::<B, S>(unset_tag(self.raw, MASK_4, TAG_B), state)
        } else if check_tag(self.raw, MASK_4, TAG_C) {
            hash_erased::<C, S>(unset_tag(self.raw, MASK_4, TAG_C), state)
        } else {
            hash_erased::<D, S>(unset_tag(self.raw, MASK_4, TAG_D), state)
        }
    }
}

impl<A: ErasablePtr + Debug, B: ErasablePtr + Debug, C: ErasablePtr + Debug, D: ErasablePtr + Debug> Debug for Union4<A, B, C, D> {
    /// Writes the pointer that the union holds, by the `Debug` of its type,
    /// as the field of a tuple struct that is called as its variant.
    fn fmt(&self, f: &mut Formatter<'_>) -> (r: Result<(), Error>) {
        proof {
            use_type_invariant(self);
        }
        if check_tag(self.raw, MASK_4, TAG_A) {
            debug_tuple_erased::<A>("A", unset_tag(self.raw, MASK_4, TAG_A), f)
        } else if check_tag(self.raw, MASK_4, TAG_B) {
            debug_tuple_erased::<B>("B", unset_tag(self.raw, MASK_4, TAG_B), f)
        } else if check_tag(self.raw, MASK_4, TAG_C) {
            debug_tuple_erased::<C>("C", unset_tag(self.raw, MASK_4, TAG_C), f)
        } else {
            debug_tuple_erased::<D>("D", unset_tag(self.raw, MASK_4, TAG_D), f)
        }
    }
}

impl<A: ErasablePtr, B: ErasablePtr, C: ErasablePtr, D: ErasablePtr> Debug for Builder4<A, B, C, D> {
    /// Writes the name of the builder and, as its one field, the marker of
    /// the pointer types that it vouches for.
    fn fmt(&self, f: &mut Formatter<'_>) -> (r: Result<(), Error>) {
        debug_tuple_into("Builder4", &self.phantom, f)
    }
}

} // verus!
