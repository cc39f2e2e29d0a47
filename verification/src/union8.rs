//! The union of eight pointers in one machine word.

use vstd::prelude::*;
use vstd::std_specs::cmp::{PartialEqSpec, PartialEqSpecImpl};
use core::fmt::{Debug, Error, Formatter};
use core::hash::{Hash, Hasher};
use core::marker::PhantomData;
use core::mem::ManuallyDrop;
use crate::erased::{
    aligned_to, is_clean, is_erasure_of, lemma_unerased, restore, unerase_in_drop, unerased,
    ErasablePtr, ErasedPtr, NeverPtr,
};
use crate::forward::{
    clone_erased, copy_erased, debug_tuple_erased, eq_erased, hash_erased, with_erased,
};
use crate::std_calls::debug_tuple_into;
use crate::tag::{
    check_tag, lemma_clean_is_multiple, lemma_set_tag, lemma_tags_fit, lemma_unset_tag, pack_word,
    set_tag, tag_of, unset_any_tag, unset_tag, untagged,
};
use crate::tag::{
    MASK_8, TAG_A, TAG_B, TAG_C, TAG_D, TAG_E, TAG_F, TAG_G, TAG_H,
};

verus! {

/// An unpacked version of [`Union8`].
#[derive(Debug, Copy, Clone, Eq, PartialEq, Hash)]
pub enum Enum8<A, B, C, D, E, F, G, H> {
    A(A),
    B(B),
    C(C),
    D(D),
    E(E),
    F(F),
    G(G),
    H(H),
}

/// The word that packs `held`: the erasure of its pointer with the tag of its
/// variant in the three lowest bits. `None` where the erasure is null or not clean
/// under the mask.
pub open spec fn packed8<
    A: ErasablePtr,
    B: ErasablePtr,
    C: ErasablePtr,
    D: ErasablePtr,
    E: ErasablePtr,
    F: ErasablePtr,
    G: ErasablePtr,
    H: ErasablePtr,
>(held: Enum8<A, B, C, D, E, F, G, H>) -> Option<usize> {
    match held {
        Enum8::A(a) => pack_word(a.erased(), MASK_8, TAG_A),
        Enum8::B(b) => pack_word(b.erased(), MASK_8, TAG_B),
        Enum8::C(c) => pack_word(c.erased(), MASK_8, TAG_C),
        Enum8::D(d) => pack_word(d.erased(), MASK_8, TAG_D),
        Enum8::E(e) => pack_word(e.erased(), MASK_8, TAG_E),
        Enum8::F(f) => pack_word(f.erased(), MASK_8, TAG_F),
        Enum8::G(g) => pack_word(g.erased(), MASK_8, TAG_G),
        Enum8::H(h) => pack_word(h.erased(), MASK_8, TAG_H),
    }
}

/// Whether the pointer of `held` erases to an address that leaves room for the
/// tag, so that `held` can be packed.
pub open spec fn fits8<
    A: ErasablePtr,
    B: ErasablePtr,
    C: ErasablePtr,
    D: ErasablePtr,
    E: ErasablePtr,
    F: ErasablePtr,
    G: ErasablePtr,
    H: ErasablePtr,
>(held: Enum8<A, B, C, D, E, F, G, H>) -> bool {
    match held {
        Enum8::A(a) => is_clean(a, MASK_8),
        Enum8::B(b) => is_clean(b, MASK_8),
        Enum8::C(c) => is_clean(c, MASK_8),
        Enum8::D(d) => is_clean(d, MASK_8),
        Enum8::E(e) => is_clean(e, MASK_8),
        Enum8::F(f) => is_clean(f, MASK_8),
        Enum8::G(g) => is_clean(g, MASK_8),
        Enum8::H(h) => is_clean(h, MASK_8),
    }
}

/// Whether `word` packs a pointer of one of the eight types: its tag names a
/// variant, and without the tag it is the erasure of a pointer of that
/// variant's type.
pub open spec fn is_packed8<
    A: ErasablePtr,
    B: ErasablePtr,
    C: ErasablePtr,
    D: ErasablePtr,
    E: ErasablePtr,
    F: ErasablePtr,
    G: ErasablePtr,
    H: ErasablePtr,
>(word: usize) -> bool {
    &&& untagged(word, MASK_8) != 0
    &&& {
        ||| tag_of(word, MASK_8) == TAG_A && is_erasure_of::<A>(untagged(word, MASK_8))
        ||| tag_of(word, MASK_8) == TAG_B && is_erasure_of::<B>(untagged(word, MASK_8))
        ||| tag_of(word, MASK_8) == TAG_C && is_erasure_of::<C>(untagged(word, MASK_8))
        ||| tag_of(word, MASK_8) == TAG_D && is_erasure_of::<D>(untagged(word, MASK_8))
        ||| tag_of(word, MASK_8) == TAG_E && is_erasure_of::<E>(untagged(word, MASK_8))
        ||| tag_of(word, MASK_8) == TAG_F && is_erasure_of::<F>(untagged(word, MASK_8))
        ||| tag_of(word, MASK_8) == TAG_G && is_erasure_of::<G>(untagged(word, MASK_8))
        ||| tag_of(word, MASK_8) == TAG_H && is_erasure_of::<H>(untagged(word, MASK_8))
    }
}

/// The pointer that `word` packs, in the variant that the tag of `word` names.
pub open spec fn unpacked8<
    A: ErasablePtr,
    B: ErasablePtr,
    C: ErasablePtr,
    D: ErasablePtr,
    E: ErasablePtr,
    F: ErasablePtr,
    G: ErasablePtr,
    H: ErasablePtr,
>(word: usize) -> Enum8<A, B, C, D, E, F, G, H> {
    if tag_of(word, MASK_8) == TAG_A {
        Enum8::A(unerased::<A>(untagged(word, MASK_8)))
    } else if tag_of(word, MASK_8) == TAG_B {
        Enum8::B(unerased::<B>(untagged(word, MASK_8)))
    } else if tag_of(word, MASK_8) == TAG_C {
        Enum8::C(unerased::<C>(untagged(word, MASK_8)))
    } else if tag_of(word, MASK_8) == TAG_D {
        Enum8::D(unerased::<D>(untagged(word, MASK_8)))
    } else if tag_of(word, MASK_8) == TAG_E {
        Enum8::E(unerased::<E>(untagged(word, MASK_8)))
    } else if tag_of(word, MASK_8) == TAG_F {
        Enum8::F(unerased::<F>(untagged(word, MASK_8)))
    } else if tag_of(word, MASK_8) == TAG_G {
        Enum8::G(unerased::<G>(untagged(word, MASK_8)))
    } else {
        Enum8::H(unerased::<H>(untagged(word, MASK_8)))
    }
}

/// Unpacking the word that packs `held` gives `held` again.
pub proof fn lemma_unpack_packed8<
    A: ErasablePtr,
    B: ErasablePtr,
    C: ErasablePtr,
    D: ErasablePtr,
    E: ErasablePtr,
    F: ErasablePtr,
    G: ErasablePtr,
    H: ErasablePtr,
>(held: Enum8<A, B, C, D, E, F, G, H>)
    requires
        packed8(held) is Some,
    ensures
        is_packed8::<A, B, C, D, E, F, G, H>(packed8(held).unwrap()),
        unpacked8::<A, B, C, D, E, F, G, H>(packed8(held).unwrap()) == held,
{
    lemma_tags_fit();
    match held {
        Enum8::A(a) => {
            lemma_set_tag(a.erased().unwrap(), MASK_8, TAG_A);
            lemma_unerased(a, a.erased().unwrap());
        },
        Enum8::B(b) => {
            lemma_set_tag(b.erased().unwrap(), MASK_8, TAG_B);
            lemma_unerased(b, b.erased().unwrap());
        },
        Enum8::C(c) => {
            lemma_set_tag(c.erased().unwrap(), MASK_8, TAG_C);
            lemma_unerased(c, c.erased().unwrap());
        },
        Enum8::D(d) => {
            lemma_set_tag(d.erased().unwrap(), MASK_8, TAG_D);
            lemma_unerased(d, d.erased().unwrap());
        },
        Enum8::E(e) => {
            lemma_set_tag(e.erased().unwrap(), MASK_8, TAG_E);
            lemma_unerased(e, e.erased().unwrap());
        },
        Enum8::F(f) => {
            lemma_set_tag(f.erased().unwrap(), MASK_8, TAG_F);
            lemma_unerased(f, f.erased().unwrap());
        },
        Enum8::G(g) => {
            lemma_set_tag(g.erased().unwrap(), MASK_8, TAG_G);
            lemma_unerased(g, g.erased().unwrap());
        },
        Enum8::H(h) => {
            lemma_set_tag(h.erased().unwrap(), MASK_8, TAG_H);
            lemma_unerased(h, h.erased().unwrap());
        },
    }
}

/// Round trip: packing what a packed word unpacks to gives the same word,
/// bit for bit.
pub proof fn lemma_pack_unpacked8<
    A: ErasablePtr,
    B: ErasablePtr,
    C: ErasablePtr,
    D: ErasablePtr,
    E: ErasablePtr,
    F: ErasablePtr,
    G: ErasablePtr,
    H: ErasablePtr,
>(word: usize)
    requires
        is_packed8::<A, B, C, D, E, F, G, H>(word),
    ensures
        packed8(unpacked8::<A, B, C, D, E, F, G, H>(word)) == Some(word),
{
    lemma_unset_tag(word, MASK_8);
}

/// Round trip: a pointer that is packed, unpacked and packed again gives the
/// word that packing it gave at first, bit for bit.
pub proof fn lemma_round_trip8<
    A: ErasablePtr,
    B: ErasablePtr,
    C: ErasablePtr,
    D: ErasablePtr,
    E: ErasablePtr,
    F: ErasablePtr,
    G: ErasablePtr,
    H: ErasablePtr,
>(held: Enum8<A, B, C, D, E, F, G, H>)
    requires
        packed8(held) is Some,
    ensures
        packed8(unpacked8::<A, B, C, D, E, F, G, H>(packed8(held).unwrap())) == packed8(held),
{
    lemma_unpack_packed8(held);
}

/// Identity: two packed words are the same word exactly when they pack the
/// same pointer in the same variant.
pub proof fn lemma_same_word_same_pointer8<
    A: ErasablePtr,
    B: ErasablePtr,
    C: ErasablePtr,
    D: ErasablePtr,
    E: ErasablePtr,
    F: ErasablePtr,
    G: ErasablePtr,
    H: ErasablePtr,
>(left: usize, right: usize)
    requires
        is_packed8::<A, B, C, D, E, F, G, H>(left),
        is_packed8::<A, B, C, D, E, F, G, H>(right),
    ensures
        left == right <==> unpacked8::<A, B, C, D, E, F, G, H>(left) == unpacked8::<A, B, C, D, E, F, G, H>(right),
{
    lemma_pack_unpacked8::<A, B, C, D, E, F, G, H>(left);
    lemma_pack_unpacked8::<A, B, C, D, E, F, G, H>(right);
}

/// Exclusivity: a packed word is of exactly one variant. Its tag is the tag
/// of the variant that it unpacks to, and of no other.
pub proof fn lemma_exclusive8<
    A: ErasablePtr,
    B: ErasablePtr,
    C: ErasablePtr,
    D: ErasablePtr,
    E: ErasablePtr,
    F: ErasablePtr,
    G: ErasablePtr,
    H: ErasablePtr,
>(word: usize)
    requires
        is_packed8::<A, B, C, D, E, F, G, H>(word),
    ensures
        unpacked8::<A, B, C, D, E, F, G, H>(word) is A <==> tag_of(word, MASK_8) == TAG_A,
        unpacked8::<A, B, C, D, E, F, G, H>(word) is B <==> tag_of(word, MASK_8) == TAG_B,
        unpacked8::<A, B, C, D, E, F, G, H>(word) is C <==> tag_of(word, MASK_8) == TAG_C,
        unpacked8::<A, B, C, D, E, F, G, H>(word) is D <==> tag_of(word, MASK_8) == TAG_D,
        unpacked8::<A, B, C, D, E, F, G, H>(word) is E <==> tag_of(word, MASK_8) == TAG_E,
        unpacked8::<A, B, C, D, E, F, G, H>(word) is F <==> tag_of(word, MASK_8) == TAG_F,
        unpacked8::<A, B, C, D, E, F, G, H>(word) is G <==> tag_of(word, MASK_8) == TAG_G,
        unpacked8::<A, B, C, D, E, F, G, H>(word) is H <==> tag_of(word, MASK_8) == TAG_H,
{
}

/// A builder for [`Union8`].
///
/// An instance of this builder is evidence that every pointer of its types
/// erases to an address that is a multiple of eight, so that a union can be
/// made of any of them without a check.
pub struct Builder8<
    A: ErasablePtr,
    B: ErasablePtr,
    C: ErasablePtr,
    D: ErasablePtr,
    E: ErasablePtr,
    F: ErasablePtr = NeverPtr,
    G: ErasablePtr = NeverPtr,
    H: ErasablePtr = NeverPtr,
> {
    phantom: PhantomData<Enum8<A, B, C, D, E, F, G, H>>,
}

impl<
    A: ErasablePtr,
    B: ErasablePtr,
    C: ErasablePtr,
    D: ErasablePtr,
    E: ErasablePtr,
    F: ErasablePtr,
    G: ErasablePtr,
    H: ErasablePtr,
> Clone for Builder8<A, B, C, D, E, F, G, H> {
    /// A builder is evidence and no more: a copy of it is the same evidence.
    fn clone(&self) -> (r: Self)
        ensures
            r == *self,
    {
        *self
    }
}

impl<
    A: ErasablePtr,
    B: ErasablePtr,
    C: ErasablePtr,
    D: ErasablePtr,
    E: ErasablePtr,
    F: ErasablePtr,
    G: ErasablePtr,
    H: ErasablePtr,
> Copy for Builder8<A, B, C, D, E, F, G, H> {}

impl<
    A: ErasablePtr,
    B: ErasablePtr,
    C: ErasablePtr,
    D: ErasablePtr,
    E: ErasablePtr,
    F: ErasablePtr,
    G: ErasablePtr,
    H: ErasablePtr,
> Builder8<A, B, C, D, E, F, G, H> {
    #[verifier::type_invariant]
    spec fn alignment_holds(self) -> bool {
        Self::safe_to_build()
    }

    /// What a builder is evidence of: the erasure of every pointer of its
    /// types is clean under the mask of the union.
    pub open spec fn safe_to_build() -> bool {
        &&& aligned_to::<A>(MASK_8)
        &&& aligned_to::<B>(MASK_8)
        &&& aligned_to::<C>(MASK_8)
        &&& aligned_to::<D>(MASK_8)
        &&& aligned_to::<E>(MASK_8)
        &&& aligned_to::<F>(MASK_8)
        &&& aligned_to::<G>(MASK_8)
        &&& aligned_to::<H>(MASK_8)
    }

    /// Assert that creating pointer unions of these types is safe.
    ///
    /// The alignment of the pointer types must meet the requirement of the
    /// union; nothing checks it when the program runs.
    pub fn new_unchecked() -> (r: Self)
        requires
            Self::safe_to_build(),
    {
        Builder8 { phantom: PhantomData }
    }

    /// Construct a union at this variant.
    pub fn a(self, this: A) -> (r: Union8<A, B, C, D, E, F, G, H>)
        ensures
            r@ == Enum8::<A, B, C, D, E, F, G, H>::A(this),
            packed8(Enum8::<A, B, C, D, E, F, G, H>::A(this)) == Some(r.word()),
    {
        proof {
            use_type_invariant(&self);
        }
        Enum8::<A, B, C, D, E, F, G, H>::A(this).pack_unchecked()
    }

    /// Construct a union at this variant.
    pub fn b(self, this: B) -> (r: Union8<A, B, C, D, E, F, G, H>)
        ensures
            r@ == Enum8::<A, B, C, D, E, F, G, H>::B(this),
            packed8(Enum8::<A, B, C, D, E, F, G, H>::B(this)) == Some(r.word()),
    {
        proof {
            use_type_invariant(&self);
        }
        Enum8::<A, B, C, D, E, F, G, H>::B(this).pack_unchecked()
    }

    /// Construct a union at this variant.
    pub fn c(self, this: C) -> (r: Union8<A, B, C, D, E, F, G, H>)
        ensures
            r@ == Enum8::<A, B, C, D, E, F, G, H>::C(this),
            packed8(Enum8::<A, B, C, D, E, F, G, H>::C(this)) == Some(r.word()),
    {
        proof {
            use_type_invariant(&self);
        }
        Enum8::<A, B, C, D, E, F, G, H>::C(this).pack_unchecked()
    }

    /// Construct a union at this variant.
    pub fn d(self, this: D) -> (r: Union8<A, B, C, D, E, F, G, H>)
        ensures
            r@ == Enum8::<A, B, C, D, E, F, G, H>::D(this),
            packed8(Enum8::<A, B, C, D, E, F, G, H>::D(this)) == Some(r.word()),
    {
        proof {
            use_type_invariant(&self);
        }
        Enum8::<A, B, C, D, E, F, G, H>::D(this).pack_unchecked()
    }

    /// Construct a union at this variant.
    pub fn e(self, this: E) -> (r: Union8<A, B, C, D, E, F, G, H>)
        ensures
            r@ == Enum8::<A, B, C, D, E, F, G, H>::E(this),
            packed8(Enum8::<A, B, C, D, E, F, G, H>::E(this)) == Some(r.word()),
    {
        proof {
            use_type_invariant(&self);
        }
        Enum8::<A, B, C, D, E, F, G, H>::E(this).pack_unchecked()
    }

    /// Construct a union at this variant.
    pub fn f(self, this: F) -> (r: Union8<A, B, C, D, E, F, G, H>)
        ensures
            r@ == Enum8::<A, B, C, D, E, F, G, H>::F(this),
            packed8(Enum8::<A, B, C, D, E, F, G, H>::F(this)) == Some(r.word()),
    {
        proof {
            use_type_invariant(&self);
        }
        Enum8::<A, B, C, D, E, F, G, H>::F(this).pack_unchecked()
    }

    /// Construct a union at this variant.
    pub fn g(self, this: G) -> (r: Union8<A, B, C, D, E, F, G, H>)
        ensures
            r@ == Enum8::<A, B, C, D, E, F, G, H>::G(this),
            packed8(Enum8::<A, B, C, D, E, F, G, H>::G(this)) == Some(r.word()),
    {
        proof {
            use_type_invariant(&self);
        }
        Enum8::<A, B, C, D, E, F, G, H>::G(this).pack_unchecked()
    }

    /// Construct a union at this variant.
    pub fn h(self, this: H) -> (r: Union8<A, B, C, D, E, F, G, H>)
        ensures
            r@ == Enum8::<A, B, C, D, E, F, G, H>::H(this),
            packed8(Enum8::<A, B, C, D, E, F, G, H>::H(this)) == Some(r.word()),
    {
        proof {
            use_type_invariant(&self);
        }
        Enum8::<A, B, C, D, E, F, G, H>::H(this).pack_unchecked()
    }
}

impl<
    A: ErasablePtr,
    B: ErasablePtr,
    C: ErasablePtr,
    D: ErasablePtr,
    E: ErasablePtr,
    F: ErasablePtr,
    G: ErasablePtr,
    H: ErasablePtr,
> Enum8<A, B, C, D, E, F, G, H> {
    /// Pack this loose enum into a pointer union.
    pub fn pack(self, builder: Builder8<A, B, C, D, E, F, G, H>) -> (r: Union8<A, B, C, D, E, F, G, H>)
        ensures
            r@ == self,
            packed8(self) == Some(r.word()),
    {
        match self {
            Enum8::A(this) => builder.a(this),
            Enum8::B(this) => builder.b(this),
            Enum8::C(this) => builder.c(this),
            Enum8::D(this) => builder.d(this),
            Enum8::E(this) => builder.e(this),
            Enum8::F(this) => builder.f(this),
            Enum8::G(this) => builder.g(this),
            Enum8::H(this) => builder.h(this),
        }
    }

    /// Pack this loose enum into a pointer union, with a dynamic alignment
    /// check. Returns the enum on error.
    pub fn try_pack(self) -> (r: Result<Union8<A, B, C, D, E, F, G, H>, Self>)
        ensures
            r is Ok <==> fits8(self),
            match r {
                Ok(made) => made@ == self && packed8(self) == Some(made.word()),
                Err(back) => back == self,
            },
    {
        match self {
            Enum8::A(this) => match Union8::new_a(this) {
                Ok(made) => Ok(made),
                Err(back) => Err(Enum8::A(back)),
            },
            Enum8::B(this) => match Union8::new_b(this) {
                Ok(made) => Ok(made),
                Err(back) => Err(Enum8::B(back)),
            },
            Enum8::C(this) => match Union8::new_c(this) {
                Ok(made) => Ok(made),
                Err(back) => Err(Enum8::C(back)),
            },
            Enum8::D(this) => match Union8::new_d(this) {
                Ok(made) => Ok(made),
                Err(back) => Err(Enum8::D(back)),
            },
            Enum8::E(this) => match Union8::new_e(this) {
                Ok(made) => Ok(made),
                Err(back) => Err(Enum8::E(back)),
            },
            Enum8::F(this) => match Union8::new_f(this) {
                Ok(made) => Ok(made),
                Err(back) => Err(Enum8::F(back)),
            },
            Enum8::G(this) => match Union8::new_g(this) {
                Ok(made) => Ok(made),
                Err(back) => Err(Enum8::G(back)),
            },
            Enum8::H(this) => match Union8::new_h(this) {
                Ok(made) => Ok(made),
                Err(back) => Err(Enum8::H(back)),
            },
        }
    }

    /// Pack this loose enum into a pointer union.
    ///
    /// The pointer packed must be properly aligned. Only the pointer that is
    /// packed is restricted, not the other pointer types of the union.
    pub fn pack_unchecked(self) -> (r: Union8<A, B, C, D, E, F, G, H>)
        requires
            fits8(self),
        ensures
            r@ == self,
            packed8(self) == Some(r.word()),
    {
        proof {
            lemma_tags_fit();
        }
        match self {
            Enum8::A(this) => {
                let word = A::erase(this);
                proof {
                    use_type_invariant(&word);
                    word.lemma_non_null();
                    lemma_unpack_packed8(self);
                }
                Union8 { raw: set_tag(word, MASK_8, TAG_A), phantom: PhantomData }
            },
            Enum8::B(this) => {
                let word = B::erase(this);
                proof {
                    use_type_invariant(&word);
                    word.lemma_non_null();
                    lemma_unpack_packed8(self);
                }
                Union8 { raw: set_tag(word, MASK_8, TAG_B), phantom: PhantomData }
            },
            Enum8::C(this) => {
                let word = C::erase(this);
                proof {
                    use_type_invariant(&word);
                    word.lemma_non_null();
                    lemma_unpack_packed8(self);
                }
                Union8 { raw: set_tag(word, MASK_8, TAG_C), phantom: PhantomData }
            },
            Enum8::D(this) => {
                let word = D::erase(this);
                proof {
                    use_type_invariant(&word);
                    word.lemma_non_null();
                    lemma_unpack_packed8(self);
                }
                Union8 { raw: set_tag(word, MASK_8, TAG_D), phantom: PhantomData }
            },
            Enum8::E(this) => {
                let word = E::erase(this);
                proof {
                    use_type_invariant(&word);
                    word.lemma_non_null();
                    lemma_unpack_packed8(self);
                }
                Union8 { raw: set_tag(word, MASK_8, TAG_E), phantom: PhantomData }
            },
            Enum8::F(this) => {
                let word = F::erase(this);
                proof {
                    use_type_invariant(&word);
                    word.lemma_non_null();
                    lemma_unpack_packed8(self);
                }
                Union8 { raw: set_tag(word, MASK_8, TAG_F), phantom: PhantomData }
            },
            Enum8::G(this) => {
                let word = G::erase(this);
                proof {
                    use_type_invariant(&word);
                    word.lemma_non_null();
                    lemma_unpack_packed8(self);
                }
                Union8 { raw: set_tag(word, MASK_8, TAG_G), phantom: PhantomData }
            },
            Enum8::H(this) => {
                let word = H::erase(this);
                proof {
                    use_type_invariant(&word);
                    word.lemma_non_null();
                    lemma_unpack_packed8(self);
                }
                Union8 { raw: set_tag(word, MASK_8, TAG_H), phantom: PhantomData }
            },
        }
    }
}

/// A pointer union of eight pointer types.
///
/// This is a tagged union of eight pointer types that is only as big as a
/// single pointer: the tag is kept in the three lowest bits of the address. As
/// such, the pointer must be aligned to at least eight bytes, which
/// [`Builder8`] vouches for and the `new_` constructors check.
///
/// The last pointer types may be left out to make a smaller union.
///
/// The view of a union is the pointer that it holds, as an [`Enum8`].
pub struct Union8<
    A: ErasablePtr,
    B: ErasablePtr,
    C: ErasablePtr,
    D: ErasablePtr,
    E: ErasablePtr,
    F: ErasablePtr = NeverPtr,
    G: ErasablePtr = NeverPtr,
    H: ErasablePtr = NeverPtr,
> {
    raw: ErasedPtr,
    phantom: PhantomData<Enum8<A, B, C, D, E, F, G, H>>,
}

impl<
    A: ErasablePtr,
    B: ErasablePtr,
    C: ErasablePtr,
    D: ErasablePtr,
    E: ErasablePtr,
    F: ErasablePtr,
    G: ErasablePtr,
    H: ErasablePtr,
> View for Union8<A, B, C, D, E, F, G, H> {
    type V = Enum8<A, B, C, D, E, F, G, H>;

    open spec fn view(&self) -> Enum8<A, B, C, D, E, F, G, H> {
        unpacked8::<A, B, C, D, E, F, G, H>(self.word())
    }
}

impl<
    A: ErasablePtr,
    B: ErasablePtr,
    C: ErasablePtr,
    D: ErasablePtr,
    E: ErasablePtr,
    F: ErasablePtr,
    G: ErasablePtr,
    H: ErasablePtr,
> Union8<A, B, C, D, E, F, G, H> {
    /// The tagged word that is all there is of this union.
    pub closed spec fn word(self) -> usize {
        self.raw@
    }

    /// Whether the word of this union packs a pointer of one of its variants.
    /// This holds of every union that a program can reach.
    #[verifier::type_invariant]
    pub open spec fn wf(self) -> bool {
        is_packed8::<A, B, C, D, E, F, G, H>(self.word())
    }

    /// Whether this union and `other` are the same variant and hold the same
    /// pointer: whether they are the same word.
    pub open spec fn same_pointer(self, other: Self) -> bool {
        self.word() == other.word()
    }

    /// Being the same pointer is reflexive, symmetric and transitive, and
    /// unions that are the same pointer hold the same pointer.
    pub proof fn lemma_same_pointer(self, other: Self, third: Self)
        requires
            self.wf(),
            other.wf(),
        ensures
            self.same_pointer(self),
            self.same_pointer(other) == other.same_pointer(self),
            self.same_pointer(other) && other.same_pointer(third) ==> self.same_pointer(third),
            self.same_pointer(other) <==> self@ == other@,
    {
        lemma_same_word_same_pointer8::<A, B, C, D, E, F, G, H>(self.word(), other.word());
    }

    /// Unions with the same word are the same union.
    pub proof fn lemma_same_word(self, other: Self)
        requires
            self.word() == other.word(),
        ensures
            self == other,
    {
        self.raw.lemma_same_address(other.raw);
    }

    /// Construct a variant of this union with a dynamic alignment check.
    ///
    /// Returns the pointer on error.
    pub fn new_a(a: A) -> (r: Result<Self, A>)
        ensures
            a.erased() is Some,
            r is Ok <==> a.erased().unwrap() % 8 == 0,
            r is Ok <==> is_clean(a, MASK_8),
            match r {
                Ok(made) => made@ == Enum8::<A, B, C, D, E, F, G, H>::A(a)
                    && packed8(Enum8::<A, B, C, D, E, F, G, H>::A(a)) == Some(made.word()),
                Err(back) => back == a,
            },
    {
        let word = A::erase(a);
        proof {
            use_type_invariant(&word);
            word.lemma_non_null();
            lemma_tags_fit();
            lemma_clean_is_multiple(word@);
        }
        if check_tag(word, MASK_8, 0) {
            proof {
                lemma_unpack_packed8(Enum8::<A, B, C, D, E, F, G, H>::A(a));
            }
            Ok(Union8 { raw: set_tag(word, MASK_8, TAG_A), phantom: PhantomData })
        } else {
            proof {
                lemma_unerased(a, word@);
            }
            Err(restore::<A>(word))
        }
    }

    /// Check if the union is this variant.
    pub fn is_a(&self) -> (r: bool)
        ensures
            r == (self@ is A),
            r == (tag_of(self.word(), MASK_8) == TAG_A),
    {
        proof {
            use_type_invariant(self);
        }
        check_tag(self.raw, MASK_8, TAG_A)
    }

    /// Extract this variant from the union.
    ///
    /// Returns the union on error.
    pub fn into_a(self) -> (r: Result<A, Self>)
        ensures
            match r {
                Ok(this) => self@ == Enum8::<A, B, C, D, E, F, G, H>::A(this),
                Err(back) => !(self@ is A) && back == self,
            },
    {
        if self.is_a() {
            proof {
                use_type_invariant(&self);
            }
            let this = ManuallyDrop::new(self);
            Ok(restore::<A>(unset_tag(this.raw, MASK_8, TAG_A)))
        } else {
            Err(self)
        }
    }

    /// Run a closure with this variant.
    pub fn with_a<R, Func: FnOnce(&A) -> R>(&self, func: Func) -> (r: Option<R>)
        requires
            self@ matches Enum8::A(this) ==> func.requires((&this,)),
        ensures
            match r {
                Some(x) => self@ matches Enum8::A(this) && func.ensures((&this,), x),
                None => !(self@ is A),
            },
    {
        if self.is_a() {
            proof {
                use_type_invariant(self);
            }
            Some(with_erased::<A, R, Func>(unset_tag(self.raw, MASK_8, TAG_A), func))
        } else {
            None
        }
    }

    /// Clone this variant out of the union.
    pub fn clone_a(&self) -> (r: Option<A>) where A: Clone
        ensures
            match r {
                Some(twin) => self@ matches Enum8::A(this) && cloned::<A>(this, twin),
                None => !(self@ is A),
            },
    {
        if self.is_a() {
            proof {
                use_type_invariant(self);
            }
            Some(clone_erased::<A>(unset_tag(self.raw, MASK_8, TAG_A)))
        } else {
            None
        }
    }

    /// Copy this variant out of the union.
    pub fn copy_a(&self) -> (r: Option<A>) where A: Copy
        ensures
            match r {
                Some(twin) => self@ == Enum8::<A, B, C, D, E, F, G, H>::A(twin),
                None => !(self@ is A),
            },
    {
        if self.is_a() {
            proof {
                use_type_invariant(self);
            }
            Some(copy_erased::<A>(unset_tag(self.raw, MASK_8, TAG_A)))
        } else {
            None
        }
    }

    /// Construct a variant of this union with a dynamic alignment check.
    ///
    /// Returns the pointer on error.
    pub fn new_b(b: B) -> (r: Result<Self, B>)
        ensures
            b.erased() is Some,
            r is Ok <==> b.erased().unwrap() % 8 == 0,
            r is Ok <==> is_clean(b, MASK_8),
            match r {
                Ok(made) => made@ == Enum8::<A, B, C, D, E, F, G, H>::B(b)
                    && packed8(Enum8::<A, B, C, D, E, F, G, H>::B(b)) == Some(made.word()),
                Err(back) => back == b,
            },
    {
        let word = B::erase(b);
        proof {
            use_type_invariant(&word);
            word.lemma_non_null();
            lemma_tags_fit();
            lemma_clean_is_multiple(word@);
        }
        if check_tag(word, MASK_8, 0) {
            proof {
                lemma_unpack_packed8(Enum8::<A, B, C, D, E, F, G, H>::B(b));
            }
            Ok(Union8 { raw: set_tag(word, MASK_8, TAG_B), phantom: PhantomData })
        } else {
            proof {
                lemma_unerased(b, word@);
            }
            Err(restore::<B>(word))
        }
    }

    /// Check if the union is this variant.
    pub fn is_b(&self) -> (r: bool)
        ensures
            r == (self@ is B),
            r == (tag_of(self.word(), MASK_8) == TAG_B),
    {
        proof {
            use_type_invariant(self);
        }
        check_tag(self.raw, MASK_8, TAG_B)
    }

    /// Extract this variant from the union.
    ///
    /// Returns the union on error.
    pub fn into_b(self) -> (r: Result<B, Self>)
        ensures
            match r {
                Ok(this) => self@ == Enum8::<A, B, C, D, E, F, G, H>::B(this),
                Err(back) => !(self@ is B) && back == self,
            },
    {
        if self.is_b() {
            proof {
                use_type_invariant(&self);
            }
            let this = ManuallyDrop::new(self);
            Ok(restore::<B>(unset_tag(this.raw, MASK_8, TAG_B)))
        } else {
            Err(self)
        }
    }

    /// Run a closure with this variant.
    pub fn with_b<R, Func: FnOnce(&B) -> R>(&self, func: Func) -> (r: Option<R>)
        requires
            self@ matches Enum8::B(this) ==> func.requires((&this,)),
        ensures
            match r {
                Some(x) => self@ matches Enum8::B(this) && func.ensures((&this,), x),
                None => !(self@ is B),
            },
    {
        if self.is_b() {
            proof {
                use_type_invariant(self);
            }
            Some(with_erased::<B, R, Func>(unset_tag(self.raw, MASK_8, TAG_B), func))
        } else {
            None
        }
    }

    /// Clone this variant out of the union.
    pub fn clone_b(&self) -> (r: Option<B>) where B: Clone
        ensures
            match r {
                Some(twin) => self@ matches Enum8::B(this) && cloned::<B>(this, twin),
                None => !(self@ is B),
            },
    {
        if self.is_b() {
            proof {
                use_type_invariant(self);
            }
            Some(clone_erased::<B>(unset_tag(self.raw, MASK_8, TAG_B)))
        } else {
            None
        }
    }

    /// Copy this variant out of the union.
    pub fn copy_b(&self) -> (r: Option<B>) where B: Copy
        ensures
            match r {
                Some(twin) => self@ == Enum8::<A, B, C, D, E, F, G, H>::B(twin),
                None => !(self@ is B),
            },
    {
        if self.is_b() {
            proof {
                use_type_invariant(self);
            }
            Some(copy_erased::<B>(unset_tag(self.raw, MASK_8, TAG_B)))
        } else {
            None
        }
    }

    /// Construct a variant of this union with a dynamic alignment check.
    ///
    /// Returns the pointer on error.
    pub fn new_c(c: C) -> (r: Result<Self, C>)
        ensures
            c.erased() is Some,
            r is Ok <==> c.erased().unwrap() % 8 == 0,
            r is Ok <==> is_clean(c, MASK_8),
            match r {
                Ok(made) => made@ == Enum8::<A, B, C, D, E, F, G, H>::C(c)
                    && packed8(Enum8::<A, B, C, D, E, F, G, H>::C(c)) == Some(made.word()),
                Err(back) => back == c,
            },
    {
        let word = C::erase(c);
        proof {
            use_type_invariant(&word);
            word.lemma_non_null();
            lemma_tags_fit();
            lemma_clean_is_multiple(word@);
        }
        if check_tag(word, MASK_8, 0) {
            proof {
                lemma_unpack_packed8(Enum8::<A, B, C, D, E, F, G, H>::C(c));
            }
            Ok(Union8 { raw: set_tag(word, MASK_8, TAG_C), phantom: PhantomData })
        } else {
            proof {
                lemma_unerased(c, word@);
            }
            Err(restore::<C>(word))
        }
    }

    /// Check if the union is this variant.
    pub fn is_c(&self) -> (r: bool)
        ensures
            r == (self@ is C),
            r == (tag_of(self.word(), MASK_8) == TAG_C),
    {
        proof {
            use_type_invariant(self);
        }
        check_tag(self.raw, MASK_8, TAG_C)
    }

    /// Extract this variant from the union.
    ///
    /// Returns the union on error.
    pub fn into_c(self) -> (r: Result<C, Self>)
        ensures
            match r {
                Ok(this) => self@ == Enum8::<A, B, C, D, E, F, G, H>::C(this),
                Err(back) => !(self@ is C) && back == self,
            },
    {
        if self.is_c() {
            proof {
                use_type_invariant(&self);
            }
            let this = ManuallyDrop::new(self);
            Ok(restore::<C>(unset_tag(this.raw, MASK_8, TAG_C)))
        } else {
            Err(self)
        }
    }

    /// Run a closure with this variant.
    pub fn with_c<R, Func: FnOnce(&C) -> R>(&self, func: Func) -> (r: Option<R>)
        requires
            self@ matches Enum8::C(this) ==> func.requires((&this,)),
        ensures
            match r {
                Some(x) => self@ matches Enum8::C(this) && func.ensures((&this,), x),
                None => !(self@ is C),
            },
    {
        if self.is_c() {
            proof {
                use_type_invariant(self);
            }
            Some(with_erased::<C, R, Func>(unset_tag(self.raw, MASK_8, TAG_C), func))
        } else {
            None
        }
    }

    /// Clone this variant out of the union.
    pub fn clone_c(&self) -> (r: Option<C>) where C: Clone
        ensures
            match r {
                Some(twin) => self@ matches Enum8::C(this) && cloned::<C>(this, twin),
                None => !(self@ is C),
            },
    {
        if self.is_c() {
            proof {
                use_type_invariant(self);
            }
            Some(clone_erased::<C>(unset_tag(self.raw, MASK_8, TAG_C)))
        } else {
            None
        }
    }

    /// Copy this variant out of the union.
    pub fn copy_c(&self) -> (r: Option<C>) where C: Copy
        ensures
            match r {
                Some(twin) => self@ == Enum8::<A, B, C, D, E, F, G, H>::C(twin),
                None => !(self@ is C),
            },
    {
        if self.is_c() {
            proof {
                use_type_invariant(self);
            }
            Some(copy_erased::<C>(unset_tag(self.raw, MASK_8, TAG_C)))
        } else {
            None
        }
    }

    /// Construct a variant of this union with a dynamic alignment check.
    ///
    /// Returns the pointer on error.
    pub fn new_d(d: D) -> (r: Result<Self, D>)
        ensures
            d.erased() is Some,
            r is Ok <==> d.erased().unwrap() % 8 == 0,
            r is Ok <==> is_clean(d, MASK_8),
            match r {
                Ok(made) => made@ == Enum8::<A, B, C, D, E, F, G, H>::D(d)
                    && packed8(Enum8::<A, B, C, D, E, F, G, H>::D(d)) == Some(made.word()),
                Err(back) => back == d,
            },
    {
        let word = D::erase(d);
        proof {
            use_type_invariant(&word);
            word.lemma_non_null();
            lemma_tags_fit();
            lemma_clean_is_multiple(word@);
        }
        if check_tag(word, MASK_8, 0) {
            proof {
                lemma_unpack_packed8(Enum8::<A, B, C, D, E, F, G, H>::D(d));
            }
            Ok(Union8 { raw: set_tag(word, MASK_8, TAG_D), phantom: PhantomData })
        } else {
            proof {
                lemma_unerased(d, word@);
            }
            Err(restore::<D>(word))
        }
    }

    /// Check if the union is this variant.
    pub fn is_d(&self) -> (r: bool)
        ensures
            r == (self@ is D),
            r == (tag_of(self.word(), MASK_8) == TAG_D),
    {
        proof {
            use_type_invariant(self);
        }
        check_tag(self.raw, MASK_8, TAG_D)
    }

    /// Extract this variant from the union.
    ///
    /// Returns the union on error.
    pub fn into_d(self) -> (r: Result<D, Self>)
        ensures
            match r {
                Ok(this) => self@ == Enum8::<A, B, C, D, E, F, G, H>::D(this),
                Err(back) => !(self@ is D) && back == self,
            },
    {
        if self.is_d() {
            proof {
                use_type_invariant(&self);
            }
            let this = ManuallyDrop::new(self);
            Ok(restore::<D>(unset_tag(this.raw, MASK_8, TAG_D)))
        } else {
            Err(self)
        }
    }

    /// Run a closure with this variant.
    pub fn with_d<R, Func: FnOnce(&D) -> R>(&self, func: Func) -> (r: Option<R>)
        requires
            self@ matches Enum8::D(this) ==> func.requires((&this,)),
        ensures
            match r {
                Some(x) => self@ matches Enum8::D(this) && func.ensures((&this,), x),
                None => !(self@ is D),
            },
    {
        if self.is_d() {
            proof {
                use_type_invariant(self);
            }
            Some(with_erased::<D, R, Func>(unset_tag(self.raw, MASK_8, TAG_D), func))
        } else {
            None
        }
    }

    /// Clone this variant out of the union.
    pub fn clone_d(&self) -> (r: Option<D>) where D: Clone
        ensures
            match r {
                Some(twin) => self@ matches Enum8::D(this) && cloned::<D>(this, twin),
                None => !(self@ is D),
            },
    {
        if self.is_d() {
            proof {
                use_type_invariant(self);
            }
            Some(clone_erased::<D>(unset_tag(self.raw, MASK_8, TAG_D)))
        } else {
            None
        }
    }

    /// Copy this variant out of the union.
    pub fn copy_d(&self) -> (r: Option<D>) where D: Copy
        ensures
            match r {
                Some(twin) => self@ == Enum8::<A, B, C, D, E, F, G, H>::D(twin),
                None => !(self@ is D),
            },
    {
        if self.is_d() {
            proof {
                use_type_invariant(self);
            }
            Some(copy_erased::<D>(unset_tag(self.raw, MASK_8, TAG_D)))
        } else {
            None
        }
    }

    /// Construct a variant of this union with a dynamic alignment check.
    ///
    /// Returns the pointer on error.
    pub fn new_e(e: E) -> (r: Result<Self, E>)
        ensures
            e.erased() is Some,
            r is Ok <==> e.erased().unwrap() % 8 == 0,
            r is Ok <==> is_clean(e, MASK_8),
            match r {
                Ok(made) => made@ == Enum8::<A, B, C, D, E, F, G, H>::E(e)
                    && packed8(Enum8::<A, B, C, D, E, F, G, H>::E(e)) == Some(made.word()),
                Err(back) => back == e,
            },
    {
        let word = E::erase(e);
        proof {
            use_type_invariant(&word);
            word.lemma_non_null();
            lemma_tags_fit();
            lemma_clean_is_multiple(word@);
        }
        if check_tag(word, MASK_8, 0) {
            proof {
                lemma_unpack_packed8(Enum8::<A, B, C, D, E, F, G, H>::E(e));
            }
            Ok(Union8 { raw: set_tag(word, MASK_8, TAG_E), phantom: PhantomData })
        } else {
            proof {
                lemma_unerased(e, word@);
            }
            Err(restore::<E>(word))
        }
    }

    /// Check if the union is this variant.
    pub fn is_e(&self) -> (r: bool)
        ensures
            r == (self@ is E),
            r == (tag_of(self.word(), MASK_8) == TAG_E),
    {
        proof {
            use_type_invariant(self);
        }
        check_tag(self.raw, MASK_8, TAG_E)
    }

    /// Extract this variant from the union.
    ///
    /// Returns the union on error.
    pub fn into_e(self) -> (r: Result<E, Self>)
        ensures
            match r {
                Ok(this) => self@ == Enum8::<A, B, C, D, E, F, G, H>::E(this),
                Err(back) => !(self@ is E) && back == self,
            },
    {
        if self.is_e() {
            proof {
                use_type_invariant(&self);
            }
            let this = ManuallyDrop::new(self);
            Ok(restore::<E>(unset_tag(this.raw, MASK_8, TAG_E)))
        } else {
            Err(self)
        }
    }

    /// Run a closure with this variant.
    pub fn with_e<R, Func: FnOnce(&E) -> R>(&self, func: Func) -> (r: Option<R>)
        requires
            self@ matches Enum8::E(this) ==> func.requires((&this,)),
        ensures
            match r {
                Some(x) => self@ matches Enum8::E(this) && func.ensures((&this,), x),
                None => !(self@ is E),
            },
    {
        if self.is_e() {
            proof {
                use_type_invariant(self);
            }
            Some(with_erased::<E, R, Func>(unset_tag(self.raw, MASK_8, TAG_E), func))
        } else {
            None
        }
    }

    /// Clone this variant out of the union.
    pub fn clone_e(&self) -> (r: Option<E>) where E: Clone
        ensures
            match r {
                Some(twin) => self@ matches Enum8::E(this) && cloned::<E>(this, twin),
                None => !(self@ is E),
            },
    {
        if self.is_e() {
            proof {
                use_type_invariant(self);
            }
            Some(clone_erased::<E>(unset_tag(self.raw, MASK_8, TAG_E)))
        } else {
            None
        }
    }

    /// Copy this variant out of the union.
    pub fn copy_e(&self) -> (r: Option<E>) where E: Copy
        ensures
            match r {
                Some(twin) => self@ == Enum8::<A, B, C, D, E, F, G, H>::E(twin),
                None => !(self@ is E),
            },
    {
        if self.is_e() {
            proof {
                use_type_invariant(self);
            }
            Some(copy_erased::<E>(unset_tag(self.raw, MASK_8, TAG_E)))
        } else {
            None
        }
    }

    /// Construct a variant of this union with a dynamic alignment check.
    ///
    /// Returns the pointer on error.
    pub fn new_f(f: F) -> (r: Result<Self, F>)
        ensures
            f.erased() is Some,
            r is Ok <==> f.erased().unwrap() % 8 == 0,
            r is Ok <==> is_clean(f, MASK_8),
            match r {
                Ok(made) => made@ == Enum8::<A, B, C, D, E, F, G, H>::F(f)
                    && packed8(Enum8::<A, B, C, D, E, F, G, H>::F(f)) == Some(made.word()),
                Err(back) => back == f,
            },
    {
        let word = F::erase(f);
        proof {
            use_type_invariant(&word);
            word.lemma_non_null();
            lemma_tags_fit();
            lemma_clean_is_multiple(word@);
        }
        if check_tag(word, MASK_8, 0) {
            proof {
                lemma_unpack_packed8(Enum8::<A, B, C, D, E, F, G, H>::F(f));
            }
            Ok(Union8 { raw: set_tag(word, MASK_8, TAG_F), phantom: PhantomData })
        } else {
            proof {
                lemma_unerased(f, word@);
            }
            Err(restore::<F>(word))
        }
    }

    /// Check if the union is this variant.
    pub fn is_f(&self) -> (r: bool)
        ensures
            r == (self@ is F),
            r == (tag_of(self.word(), MASK_8) == TAG_F),
    {
        proof {
            use_type_invariant(self);
        }
        check_tag(self.raw, MASK_8, TAG_F)
    }

    /// Extract this variant from the union.
    ///
    /// Returns the union on error.
    pub fn into_f(self) -> (r: Result<F, Self>)
        ensures
            match r {
                Ok(this) => self@ == Enum8::<A, B, C, D, E, F, G, H>::F(this),
                Err(back) => !(self@ is F) && back == self,
            },
    {
        if self.is_f() {
            proof {
                use_type_invariant(&self);
            }
            let this = ManuallyDrop::new(self);
            Ok(restore::<F>(unset_tag(this.raw, MASK_8, TAG_F)))
        } else {
            Err(self)
        }
    }

    /// Run a closure with this variant.
    pub fn with_f<R, Func: FnOnce(&F) -> R>(&self, func: Func) -> (r: Option<R>)
        requires
            self@ matches Enum8::F(this) ==> func.requires((&this,)),
        ensures
            match r {
                Some(x) => self@ matches Enum8::F(this) && func.ensures((&this,), x),
                None => !(self@ is F),
            },
    {
        if self.is_f() {
            proof {
                use_type_invariant(self);
            }
            Some(with_erased::<F, R, Func>(unset_tag(self.raw, MASK_8, TAG_F), func))
        } else {
            None
        }
    }

    /// Clone this variant out of the union.
    pub fn clone_f(&self) -> (r: Option<F>) where F: Clone
        ensures
            match r {
                Some(twin) => self@ matches Enum8::F(this) && cloned::<F>(this, twin),
                None => !(self@ is F),
            },
    {
        if self.is_f() {
            proof {
                use_type_invariant(self);
            }
            Some(clone_erased::<F>(unset_tag(self.raw, MASK_8, TAG_F)))
        } else {
            None
        }
    }

    /// Copy this variant out of the union.
    pub fn copy_f(&self) -> (r: Option<F>) where F: Copy
        ensures
            match r {
                Some(twin) => self@ == Enum8::<A, B, C, D, E, F, G, H>::F(twin),
                None => !(self@ is F),
            },
    {
        if self.is_f() {
            proof {
                use_type_invariant(self);
            }
            Some(copy_erased::<F>(unset_tag(self.raw, MASK_8, TAG_F)))
        } else {
            None
        }
    }

    /// Construct a variant of this union with a dynamic alignment check.
    ///
    /// Returns the pointer on error.
    pub fn new_g(g: G) -> (r: Result<Self, G>)
        ensures
            g.erased() is Some,
            r is Ok <==> g.erased().unwrap() % 8 == 0,
            r is Ok <==> is_clean(g, MASK_8),
            match r {
                Ok(made) => made@ == Enum8::<A, B, C, D, E, F, G, H>::G(g)
                    && packed8(Enum8::<A, B, C, D, E, F, G, H>::G(g)) == Some(made.word()),
                Err(back) => back == g,
            },
    {
        let word = G::erase(g);
        proof {
            use_type_invariant(&word);
            word.lemma_non_null();
            lemma_tags_fit();
            lemma_clean_is_multiple(word@);
        }
        if check_tag(word, MASK_8, 0) {
            proof {
                lemma_unpack_packed8(Enum8::<A, B, C, D, E, F, G, H>::G(g));
            }
            Ok(Union8 { raw: set_tag(word, MASK_8, TAG_G), phantom: PhantomData })
        } else {
            proof {
                lemma_unerased(g, word@);
            }
            Err(restore::<G>(word))
        }
    }

    /// Check if the union is this variant.
    pub fn is_g(&self) -> (r: bool)
        ensures
            r == (self@ is G),
            r == (tag_of(self.word(), MASK_8) == TAG_G),
    {
        proof {
            use_type_invariant(self);
        }
        check_tag(self.raw, MASK_8, TAG_G)
    }

    /// Extract this variant from the union.
    ///
    /// Returns the union on error.
    pub fn into_g(self) -> (r: Result<G, Self>)
        ensures
            match r {
                Ok(this) => self@ == Enum8::<A, B, C, D, E, F, G, H>::G(this),
                Err(back) => !(self@ is G) && back == self,
            },
    {
        if self.is_g() {
            proof {
                use_type_invariant(&self);
            }
            let this = ManuallyDrop::new(self);
            Ok(restore::<G>(unset_tag(this.raw, MASK_8, TAG_G)))
        } else {
            Err(self)
        }
    }

    /// Run a closure with this variant.
    pub fn with_g<R, Func: FnOnce(&G) -> R>(&self, func: Func) -> (r: Option<R>)
        requires
            self@ matches Enum8::G(this) ==> func.requires((&this,)),
        ensures
            match r {
                Some(x) => self@ matches Enum8::G(this) && func.ensures((&this,), x),
                None => !(self@ is G),
            },
    {
        if self.is_g() {
            proof {
                use_type_invariant(self);
            }
            Some(with_erased::<G, R, Func>(unset_tag(self.raw, MASK_8, TAG_G), func))
        } else {
            None
        }
    }

    /// Clone this variant out of the union.
    pub fn clone_g(&self) -> (r: Option<G>) where G: Clone
        ensures
            match r {
                Some(twin) => self@ matches Enum8::G(this) && cloned::<G>(this, twin),
                None => !(self@ is G),
            },
    {
        if self.is_g() {
            proof {
                use_type_invariant(self);
            }
            Some(clone_erased::<G>(unset_tag(self.raw, MASK_8, TAG_G)))
        } else {
            None
        }
    }

    /// Copy this variant out of the union.
    pub fn copy_g(&self) -> (r: Option<G>) where G: Copy
        ensures
            match r {
                Some(twin) => self@ == Enum8::<A, B, C, D, E, F, G, H>::G(twin),
                None => !(self@ is G),
            },
    {
        if self.is_g() {
            proof {
                use_type_invariant(self);
            }
            Some(copy_erased::<G>(unset_tag(self.raw, MASK_8, TAG_G)))
        } else {
            None
        }
    }

    /// Construct a variant of this union with a dynamic alignment check.
    ///
    /// Returns the pointer on error.
    pub fn new_h(h: H) -> (r: Result<Self, H>)
        ensures
            h.erased() is Some,
            r is Ok <==> h.erased().unwrap() % 8 == 0,
            r is Ok <==> is_clean(h, MASK_8),
            match r {
                Ok(made) => made@ == Enum8::<A, B, C, D, E, F, G, H>::H(h)
                    && packed8(Enum8::<A, B, C, D, E, F, G, H>::H(h)) == Some(made.word()),
                Err(back) => back == h,
            },
    {
        let word = H::erase(h);
        proof {
            use_type_invariant(&word);
            word.lemma_non_null();
            lemma_tags_fit();
            lemma_clean_is_multiple(word@);
        }
        if check_tag(word, MASK_8, 0) {
            proof {
                lemma_unpack_packed8(Enum8::<A, B, C, D, E, F, G, H>::H(h));
            }
            Ok(Union8 { raw: set_tag(word, MASK_8, TAG_H), phantom: PhantomData })
        } else {
            proof {
                lemma_unerased(h, word@);
            }
            Err(restore::<H>(word))
        }
    }

    /// Check if the union is this variant.
    pub fn is_h(&self) -> (r: bool)
        ensures
            r == (self@ is H),
            r == (tag_of(self.word(), MASK_8) == TAG_H),
    {
        proof {
            use_type_invariant(self);
        }
        check_tag(self.raw, MASK_8, TAG_H)
    }

    /// Extract this variant from the union.
    ///
    /// Returns the union on error.
    pub fn into_h(self) -> (r: Result<H, Self>)
        ensures
            match r {
                Ok(this) => self@ == Enum8::<A, B, C, D, E, F, G, H>::H(this),
                Err(back) => !(self@ is H) && back == self,
            },
    {
        if self.is_h() {
            proof {
                use_type_invariant(&self);
            }
            let this = ManuallyDrop::new(self);
            Ok(restore::<H>(unset_tag(this.raw, MASK_8, TAG_H)))
        } else {
            Err(self)
        }
    }

    /// Run a closure with this variant.
    pub fn with_h<R, Func: FnOnce(&H) -> R>(&self, func: Func) -> (r: Option<R>)
        requires
            self@ matches Enum8::H(this) ==> func.requires((&this,)),
        ensures
            match r {
                Some(x) => self@ matches Enum8::H(this) && func.ensures((&this,), x),
                None => !(self@ is H),
            },
    {
        if self.is_h() {
            proof {
                use_type_invariant(self);
            }
            Some(with_erased::<H, R, Func>(unset_tag(self.raw, MASK_8, TAG_H), func))
        } else {
            None
        }
    }

    /// Clone this variant out of the union.
    pub fn clone_h(&self) -> (r: Option<H>) where H: Clone
        ensures
            match r {
                Some(twin) => self@ matches Enum8::H(this) && cloned::<H>(this, twin),
                None => !(self@ is H),
            },
    {
        if self.is_h() {
            proof {
                use_type_invariant(self);
            }
            Some(clone_erased::<H>(unset_tag(self.raw, MASK_8, TAG_H)))
        } else {
            None
        }
    }

    /// Copy this variant out of the union.
    pub fn copy_h(&self) -> (r: Option<H>) where H: Copy
        ensures
            match r {
                Some(twin) => self@ == Enum8::<A, B, C, D, E, F, G, H>::H(twin),
                None => !(self@ is H),
            },
    {
        if self.is_h() {
            proof {
                use_type_invariant(self);
            }
            Some(copy_erased::<H>(unset_tag(self.raw, MASK_8, TAG_H)))
        } else {
            None
        }
    }

    /// Unpack this union into an enum.
    pub fn unpack(self) -> (r: Enum8<A, B, C, D, E, F, G, H>)
        ensures
            r == self@,
            packed8(r) == Some(self.word()),
    {
        proof {
            use_type_invariant(&self);
            lemma_pack_unpacked8::<A, B, C, D, E, F, G, H>(self.word());
        }
        let this = ManuallyDrop::new(self);
        let raw = this.raw;
        if check_tag(raw, MASK_8, TAG_A) {
            Enum8::A(restore::<A>(unset_tag(raw, MASK_8, TAG_A)))
        } else if check_tag(raw, MASK_8, TAG_B) {
            Enum8::B(restore::<B>(unset_tag(raw, MASK_8, TAG_B)))
        } else if check_tag(raw, MASK_8, TAG_C) {
            Enum8::C(restore::<C>(unset_tag(raw, MASK_8, TAG_C)))
        } else if check_tag(raw, MASK_8, TAG_D) {
            Enum8::D(restore::<D>(unset_tag(raw, MASK_8, TAG_D)))
        } else if check_tag(raw, MASK_8, TAG_E) {
            Enum8::E(restore::<E>(unset_tag(raw, MASK_8, TAG_E)))
        } else if check_tag(raw, MASK_8, TAG_F) {
            Enum8::F(restore::<F>(unset_tag(raw, MASK_8, TAG_F)))
        } else if check_tag(raw, MASK_8, TAG_G) {
            Enum8::G(restore::<G>(unset_tag(raw, MASK_8, TAG_G)))
        } else {
            Enum8::H(restore::<H>(unset_tag(raw, MASK_8, TAG_H)))
        }
    }

    /// Check if two unions are the same variant and point to the same value
    /// (not that the values compare as equal).
    pub fn ptr_eq(&self, other: &Self) -> (r: bool)
        ensures
            r == self.same_pointer(*other),
            r == (self@ == other@),
    {
        proof {
            use_type_invariant(self);
            use_type_invariant(other);
            lemma_same_word_same_pointer8::<A, B, C, D, E, F, G, H>(self.word(), other.word());
        }
        self.raw.addr() == other.raw.addr()
    }

    /// Get the raw type-erased untagged pointer to the payload.
    pub fn as_untagged_ptr(&self) -> (r: ErasedPtr)
        ensures
            r@ == untagged(self.word(), MASK_8),
            match self@ {
                Enum8::A(a) => a.erased() == Some(r@),
                Enum8::B(b) => b.erased() == Some(r@),
                Enum8::C(c) => c.erased() == Some(r@),
                Enum8::D(d) => d.erased() == Some(r@),
                Enum8::E(e) => e.erased() == Some(r@),
                Enum8::F(f) => f.erased() == Some(r@),
                Enum8::G(g) => g.erased() == Some(r@),
                Enum8::H(h) => h.erased() == Some(r@),
            },
    {
        proof {
            use_type_invariant(self);
        }
        unset_any_tag(self.raw, MASK_8)
    }
}

impl<
    A: ErasablePtr + Clone,
    B: ErasablePtr + Clone,
    C: ErasablePtr + Clone,
    D: ErasablePtr + Clone,
    E: ErasablePtr + Clone,
    F: ErasablePtr + Clone,
    G: ErasablePtr + Clone,
    H: ErasablePtr + Clone,
> Union8<A, B, C, D, E, F, G, H> {
    /// Whether whatever a clone of the pointer in this union may be, it
    /// erases to an address that leaves room for the tag.
    pub open spec fn clones_fit(self) -> bool {
        match self@ {
            Enum8::A(this) => forall|twin: A| cloned::<A>(this, twin) ==> is_clean(twin, MASK_8),
            Enum8::B(this) => forall|twin: B| cloned::<B>(this, twin) ==> is_clean(twin, MASK_8),
            Enum8::C(this) => forall|twin: C| cloned::<C>(this, twin) ==> is_clean(twin, MASK_8),
            Enum8::D(this) => forall|twin: D| cloned::<D>(this, twin) ==> is_clean(twin, MASK_8),
            Enum8::E(this) => forall|twin: E| cloned::<E>(this, twin) ==> is_clean(twin, MASK_8),
            Enum8::F(this) => forall|twin: F| cloned::<F>(this, twin) ==> is_clean(twin, MASK_8),
            Enum8::G(this) => forall|twin: G| cloned::<G>(this, twin) ==> is_clean(twin, MASK_8),
            Enum8::H(this) => forall|twin: H| cloned::<H>(this, twin) ==> is_clean(twin, MASK_8),
        }
    }

    /// Whether `other` holds a clone of the pointer in this union, in the
    /// same variant.
    pub open spec fn is_cloned_by(self, other: Self) -> bool {
        match self@ {
            Enum8::A(this) => other@ matches Enum8::A(twin) && cloned::<A>(this, twin),
            Enum8::B(this) => other@ matches Enum8::B(twin) && cloned::<B>(this, twin),
            Enum8::C(this) => other@ matches Enum8::C(twin) && cloned::<C>(this, twin),
            Enum8::D(this) => other@ matches Enum8::D(twin) && cloned::<D>(this, twin),
            Enum8::E(this) => other@ matches Enum8::E(twin) && cloned::<E>(this, twin),
            Enum8::F(this) => other@ matches Enum8::F(twin) && cloned::<F>(this, twin),
            Enum8::G(this) => other@ matches Enum8::G(twin) && cloned::<G>(this, twin),
            Enum8::H(this) => other@ matches Enum8::H(twin) && cloned::<H>(this, twin),
        }
    }

    /// Clone the pointer in this union into a union of its own.
    ///
    /// The clone must be aligned as the union requires, which holds where
    /// the pointer types are safe to build a union from. Where that is not
    /// known, use `try_clone`.
    pub fn clone(&self) -> (r: Self)
        requires
            self.clones_fit(),
        ensures
            self.is_cloned_by(r),
    {
        proof {
            use_type_invariant(self);
        }
        if check_tag(self.raw, MASK_8, TAG_A) {
            let twin = clone_erased::<A>(unset_tag(self.raw, MASK_8, TAG_A));
            Enum8::<A, B, C, D, E, F, G, H>::A(twin).pack_unchecked()
        } else if check_tag(self.raw, MASK_8, TAG_B) {
            let twin = clone_erased::<B>(unset_tag(self.raw, MASK_8, TAG_B));
            Enum8::<A, B, C, D, E, F, G, H>::B(twin).pack_unchecked()
        } else if check_tag(self.raw, MASK_8, TAG_C) {
            let twin = clone_erased::<C>(unset_tag(self.raw, MASK_8, TAG_C));
            Enum8::<A, B, C, D, E, F, G, H>::C(twin).pack_unchecked()
        } else if check_tag(self.raw, MASK_8, TAG_D) {
            let twin = clone_erased::<D>(unset_tag(self.raw, MASK_8, TAG_D));
            Enum8::<A, B, C, D, E, F, G, H>::D(twin).pack_unchecked()
        } else if check_tag(self.raw, MASK_8, TAG_E) {
            let twin = clone_erased::<E>(unset_tag(self.raw, MASK_8, TAG_E));
            Enum8::<A, B, C, D, E, F, G, H>::E(twin).pack_unchecked()
        } else if check_tag(self.raw, MASK_8, TAG_F) {
            let twin = clone_erased::<F>(unset_tag(self.raw, MASK_8, TAG_F));
            Enum8::<A, B, C, D, E, F, G, H>::F(twin).pack_unchecked()
        } else if check_tag(self.raw, MASK_8, TAG_G) {
            let twin = clone_erased::<G>(unset_tag(self.raw, MASK_8, TAG_G));
            Enum8::<A, B, C, D, E, F, G, H>::G(twin).pack_unchecked()
        } else {
            let twin = clone_erased::<H>(unset_tag(self.raw, MASK_8, TAG_H));
            Enum8::<A, B, C, D, E, F, G, H>::H(twin).pack_unchecked()
        }
    }

    /// Clone the pointer in this union into a union of its own, with a
    /// dynamic alignment check on the clone.
    ///
    /// Returns `None`, and drops the clone, where the clone is not aligned
    /// as the union requires.
    pub fn try_clone(&self) -> (r: Option<Self>)
        ensures
            match r {
                Some(made) => self.is_cloned_by(made),
                None => !self.clones_fit(),
            },
    {
        proof {
            use_type_invariant(self);
        }
        if check_tag(self.raw, MASK_8, TAG_A) {
            let twin = clone_erased::<A>(unset_tag(self.raw, MASK_8, TAG_A));
            match Union8::new_a(twin) {
                Ok(made) => Some(made),
                Err(_) => None,
            }
        } else if check_tag(self.raw, MASK_8, TAG_B) {
            let twin = clone_erased::<B>(unset_tag(self.raw, MASK_8, TAG_B));
            match Union8::new_b(twin) {
                Ok(made) => Some(made),
                Err(_) => None,
            }
        } else if check_tag(self.raw, MASK_8, TAG_C) {
            let twin = clone_erased::<C>(unset_tag(self.raw, MASK_8, TAG_C));
            match Union8::new_c(twin) {
                Ok(made) => Some(made),
                Err(_) => None,
            }
        } else if check_tag(self.raw, MASK_8, TAG_D) {
            let twin = clone_erased::<D>(unset_tag(self.raw, MASK_8, TAG_D));
            match Union8::new_d(twin) {
                Ok(made) => Some(made),
                Err(_) => None,
            }
        } else if check_tag(self.raw, MASK_8, TAG_E) {
            let twin = clone_erased::<E>(unset_tag(self.raw, MASK_8, TAG_E));
            match Union8::new_e(twin) {
                Ok(made) => Some(made),
                Err(_) => None,
            }
        } else if check_tag(self.raw, MASK_8, TAG_F) {
            let twin = clone_erased::<F>(unset_tag(self.raw, MASK_8, TAG_F));
            match Union8::new_f(twin) {
                Ok(made) => Some(made),
                Err(_) => None,
            }
        } else if check_tag(self.raw, MASK_8, TAG_G) {
            let twin = clone_erased::<G>(unset_tag(self.raw, MASK_8, TAG_G));
            match Union8::new_g(twin) {
                Ok(made) => Some(made),
                Err(_) => None,
            }
        } else {
            let twin = clone_erased::<H>(unset_tag(self.raw, MASK_8, TAG_H));
            match Union8::new_h(twin) {
                Ok(made) => Some(made),
                Err(_) => None,
            }
        }
    }
}

impl<
    A: ErasablePtr,
    B: ErasablePtr,
    C: ErasablePtr,
    D: ErasablePtr,
    E: ErasablePtr,
    F: ErasablePtr,
    G: ErasablePtr,
    H: ErasablePtr,
> ErasablePtr for Union8<A, B, C, D, E, F, G, H> {
    /// A union erases to its word, tag and all.
    open spec fn erased(self) -> Option<usize> {
        if self.wf() {
            Some(self.word())
        } else {
            None
        }
    }

    proof fn erased_is_injective(a: Self, b: Self) {
        if a.erased() is Some && a.erased() == b.erased() {
            a.lemma_same_word(b);
        }
    }

    /// Gives the word of the union, which keeps what the union owned.
    fn erase(this: Self) -> (word: ErasedPtr)
        ensures
            word@ == this.word(),
    {
        proof {
            use_type_invariant(&this);
        }
        let this = ManuallyDrop::new(this);
        this.raw
    }

    /// Makes a union of its word again.
    fn unerase(word: ErasedPtr) -> (this: Self)
        ensures
            this.word() == word@,
    {
        Union8 { raw: word, phantom: PhantomData }
    }
}

impl<
    A: ErasablePtr,
    B: ErasablePtr,
    C: ErasablePtr,
    D: ErasablePtr,
    E: ErasablePtr,
    F: ErasablePtr,
    G: ErasablePtr,
    H: ErasablePtr,
> Drop for Union8<A, B, C, D, E, F, G, H> {
    /// Restores the one pointer that the union holds and drops it.
    fn drop(&mut self)
        opens_invariants none
        no_unwind
    {
        proof {
            use_type_invariant(&*self);
        }
        let raw = self.raw;
        if check_tag(raw, MASK_8, TAG_A) {
            let _a: A = unerase_in_drop(unset_tag(raw, MASK_8, TAG_A));
        } else if check_tag(raw, MASK_8, TAG_B) {
            let _b: B = unerase_in_drop(unset_tag(raw, MASK_8, TAG_B));
        } else if check_tag(raw, MASK_8, TAG_C) {
            let _c: C = unerase_in_drop(unset_tag(raw, MASK_8, TAG_C));
        } else if check_tag(raw, MASK_8, TAG_D) {
            let _d: D = unerase_in_drop(unset_tag(raw, MASK_8, TAG_D));
        } else if check_tag(raw, MASK_8, TAG_E) {
            let _e: E = unerase_in_drop(unset_tag(raw, MASK_8, TAG_E));
        } else if check_tag(raw, MASK_8, TAG_F) {
            let _f: F = unerase_in_drop(unset_tag(raw, MASK_8, TAG_F));
        } else if check_tag(raw, MASK_8, TAG_G) {
            let _g: G = unerase_in_drop(unset_tag(raw, MASK_8, TAG_G));
        } else {
            let _h: H = unerase_in_drop(unset_tag(raw, MASK_8, TAG_H));
        }
    }
}

impl<
    A: ErasablePtr + PartialEq,
    B: ErasablePtr + PartialEq,
    C: ErasablePtr + PartialEq,
    D: ErasablePtr + PartialEq,
    E: ErasablePtr + PartialEq,
    F: ErasablePtr + PartialEq,
    G: ErasablePtr + PartialEq,
    H: ErasablePtr + PartialEq,
> PartialEq for Union8<A, B, C, D, E, F, G, H> {
    /// Unions are equal when they are of the same variant and their
    /// pointers are equal by the `==` of that variant's type.
    fn eq(&self, other: &Self) -> (r: bool) {
        proof {
            use_type_invariant(self);
            use_type_invariant(other);
        }
        if check_tag(self.raw, MASK_8, TAG_A) {
            check_tag(other.raw, MASK_8, TAG_A) && eq_erased::<A>(
                unset_tag(self.raw, MASK_8, TAG_A),
                unset_tag(other.raw, MASK_8, TAG_A),
            )
        } else if check_tag(self.raw, MASK_8, TAG_B) {
            check_tag(other.raw, MASK_8, TAG_B) && eq_erased::<B>(
                unset_tag(self.raw, MASK_8, TAG_B),
                unset_tag(other.raw, MASK_8, TAG_B),
            )
        } else if check_tag(self.raw, MASK_8, TAG_C) {
            check_tag(other.raw, MASK_8, TAG_C) && eq_erased::<C>(
                unset_tag(self.raw, MASK_8, TAG_C),
                unset_tag(other.raw, MASK_8, TAG_C),
            )
        } else if check_tag(self.raw, MASK_8, TAG_D) {
            check_tag(other.raw, MASK_8, TAG_D) && eq_erased::<D>(
                unset_tag(self.raw, MASK_8, TAG_D),
                unset_tag(other.raw, MASK_8, TAG_D),
            )
        } else if check_tag(self.raw, MASK_8, TAG_E) {
            check_tag(other.raw, MASK_8, TAG_E) && eq_erased::<E>(
                unset_tag(self.raw, MASK_8, TAG_E),
                unset_tag(other.raw, MASK_8, TAG_E),
            )
        } else if check_tag(self.raw, MASK_8, TAG_F) {
            check_tag(other.raw, MASK_8, TAG_F) && eq_erased::<F>(
                unset_tag(self.raw, MASK_8, TAG_F),
                unset_tag(other.raw, MASK_8, TAG_F),
            )
        } else if check_tag(self.raw, MASK_8, TAG_G) {
            check_tag(other.raw, MASK_8, TAG_G) && eq_erased::<G>(
                unset_tag(self.raw, MASK_8, TAG_G),
                unset_tag(other.raw, MASK_8, TAG_G),
            )
        } else {
            check_tag(other.raw, MASK_8, TAG_H) && eq_erased::<H>(
                unset_tag(self.raw, MASK_8, TAG_H),
                unset_tag(other.raw, MASK_8, TAG_H),
            )
        }
    }
}

impl<
    A: ErasablePtr + PartialEq,
    B: ErasablePtr + PartialEq,
    C: ErasablePtr + PartialEq,
    D: ErasablePtr + PartialEq,
    E: ErasablePtr + PartialEq,
    F: ErasablePtr + PartialEq,
    G: ErasablePtr + PartialEq,
    H: ErasablePtr + PartialEq,
> PartialEqSpecImpl for Union8<A, B, C, D, E, F, G, H> {
    open spec fn obeys_eq_spec() -> bool {
        &&& A::obeys_eq_spec()
        &&& B::obeys_eq_spec()
        &&& C::obeys_eq_spec()
        &&& D::obeys_eq_spec()
        &&& E::obeys_eq_spec()
        &&& F::obeys_eq_spec()
        &&& G::obeys_eq_spec()
        &&& H::obeys_eq_spec()
    }

    open spec fn eq_spec(&self, other: &Self) -> bool {
        match self@ {
            Enum8::A(x) => other@ matches Enum8::A(y) && x.eq_spec(&y),
            Enum8::B(x) => other@ matches Enum8::B(y) && x.eq_spec(&y),
            Enum8::C(x) => other@ matches Enum8::C(y) && x.eq_spec(&y),
            Enum8::D(x) => other@ matches Enum8::D(y) && x.eq_spec(&y),
            Enum8::E(x) => other@ matches Enum8::E(y) && x.eq_spec(&y),
            Enum8::F(x) => other@ matches Enum8::F(y) && x.eq_spec(&y),
            Enum8::G(x) => other@ matches Enum8::G(y) && x.eq_spec(&y),
            Enum8::H(x) => other@ matches Enum8::H(y) && x.eq_spec(&y),
        }
    }
}

impl<
    A: ErasablePtr + Eq,
    B: ErasablePtr + Eq,
    C: ErasablePtr + Eq,
    D: ErasablePtr + Eq,
    E: ErasablePtr + Eq,
    F: ErasablePtr + Eq,
    G: ErasablePtr + Eq,
    H: ErasablePtr + Eq,
> Eq for Union8<A, B, C, D, E, F, G, H> {}

impl<
    A: ErasablePtr + Hash,
    B: ErasablePtr + Hash,
    C: ErasablePtr + Hash,
    D: ErasablePtr + Hash,
    E: ErasablePtr + Hash,
    F: ErasablePtr + Hash,
    G: ErasablePtr + Hash,
    H: ErasablePtr + Hash,
> Hash for Union8<A, B, C, D, E, F, G, H> {
    /// Feeds the pointer that the union holds into `state`, by the `Hash`
    /// of its type.
    fn hash<S: Hasher>(&self, state: &mut S) {
        proof {
            use_type_invariant(self);
        }
        if check_tag(self.raw, MASK_8, TAG_A) {
            hash_erased::<A, S>(unset_tag(self.raw, MASK_8, TAG_A), state)
        } else if check_tag(self.raw, MASK_8, TAG_B) {
            hash_erased::<B, S>(unset_tag(self.raw, MASK_8, TAG_B), state)
        } else if check_tag(self.raw, MASK_8, TAG_C) {
            hash_erased::<C, S>(unset_tag(self.raw, MASK_8, TAG_C), state)
        } else if check_tag(self.raw, MASK_8, TAG_D) {
            hash_erased::<D, S>(unset_tag(self.raw, MASK_8, TAG_D), state)
        } else if check_tag(self.raw, MASK_8, TAG_E) {
            hash_erased::<E, S>(unset_tag(self.raw, MASK_8, TAG_E), state)
        } else if check_tag(self.raw, MASK_8, TAG_F) {
            hash_erased::<F, S>(unset_tag(self.raw, MASK_8, TAG_F), state)
        } else if check_tag(self.raw, MASK_8, TAG_G) {
            hash_erased::<G, S>(unset_tag(self.raw, MASK_8, TAG_G), state)
        } else {
            hash_erased::<H, S>(unset_tag(self.raw, MASK_8, TAG_H), state)
        }
    }
}

impl<
    A: ErasablePtr + Debug,
    B: ErasablePtr + Debug,
    C: ErasablePtr + Debug,
    D: ErasablePtr + Debug,
    E: ErasablePtr + Debug,
    F: ErasablePtr + Debug,
    G: ErasablePtr + Debug,
    H: ErasablePtr + Debug,
> Debug for Union8<A, B, C, D, E, F, G, H> {
    /// Writes the pointer that the union holds, by the `Debug` of its type,
    /// as the field of a tuple struct that is called as its variant.
    fn fmt(&self, f: &mut Formatter<'_>) -> (r: Result<(), Error>) {
        proof {
            use_type_invariant(self);
        }
        if check_tag(self.raw, MASK_8, TAG_A) {
            debug_tuple_erased::<A>("A", unset_tag(self.raw, MASK_8, TAG_A), f)
        } else if check_tag(self.raw, MASK_8, TAG_B) {
            debug_tuple_erased::<B>("B", unset_tag(self.raw, MASK_8, TAG_B), f)
        } else if check_tag(self.raw, MASK_8, TAG_C) {
            debug_tuple_erased::<C>("C", unset_tag(self.raw, MASK_8, TAG_C), f)
        } else if check_tag(self.raw, MASK_8, TAG_D) {
            debug_tuple_erased::<D>("D", unset_tag(self.raw, MASK_8, TAG_D), f)
        } else if check_tag(self.raw, MASK_8, TAG_E) {
            debug_tuple_erased::<E>("E", unset_tag(self.raw, MASK_8, TAG_E), f)
        } else if check_tag(self.raw, MASK_8, TAG_F) {
            debug_tuple_erased::<F>("F", unset_tag(self.raw, MASK_8, TAG_F), f)
        } else if check_tag(self.raw, MASK_8, TAG_G) {
            debug_tuple_erased::<G>("G", unset_tag(self.raw, MASK_8, TAG_G), f)
        } else {
            debug_tuple_erased::<H>("H", unset_tag(self.raw, MASK_8, TAG_H), f)
        }
    }
}

impl<
    A: ErasablePtr,
    B: ErasablePtr,
    C: ErasablePtr,
    D: ErasablePtr,
    E: ErasablePtr,
    F: ErasablePtr,
    G: ErasablePtr,
    H: ErasablePtr,
> Debug for Builder8<A, B, C, D, E, F, G, H> {
    /// Writes the name of the builder and, as its one field, the marker of
    /// the pointer types that it vouches for.
    fn fmt(&self, f: &mut Formatter<'_>) -> (r: Result<(), Error>) {
        debug_tuple_into("Builder8", &self.phantom, f)
    }
}

} // verus!
