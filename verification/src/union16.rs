//! The union of sixteen pointers in one machine word.

use vstd::prelude::*;
use vstd::std_specs::cmp::{PartialEqSpec, PartialEqSpecImpl};
use core::fmt::{Debug, Error, Formatter};
use core::hash::{Hash, Hasher};
use core::marker::PhantomData;
use core::mem::ManuallyDrop;
use crate::erased::{
    aligned_to, is_clean, is_erasure_of, lemma_unerased, restore, unerase_in_drop, unerased,
    ErasablePtr, ErasedPtr, NeverPtr,
};
use crate::forward::{
    clone_erased, copy_erased, debug_tuple_erased, eq_erased, hash_erased, with_erased,
};
use crate::std_calls::debug_tuple_into;
use crate::tag::{
    check_tag, lemma_clean_is_multiple, lemma_set_tag, lemma_tags_fit, lemma_unset_tag, pack_word,
    set_tag, tag_of, unset_any_tag, unset_tag, untagged,
};
use crate::tag::{
    MASK_16, TAG_A, TAG_B, TAG_C, TAG_D, TAG_E, TAG_F, TAG_G, TAG_H, TAG_I, TAG_J, TAG_K, TAG_L,
    TAG_M, TAG_N, TAG_O, TAG_P,
};

verus! {

/// An unpacked version of [`Union16`].
#[derive(Debug, Copy, Clone, Eq, PartialEq, Hash)]
pub enum Enum16<A, B, C, D, E, F, G, H, I, J, K, L, M, N, O, P> {
    A(A),
    B(B),
    C(C),
    D(D),
    E(E),
    F(F),
    G(G),
    H(H),
    I(I),
    J(J),
    K(K),
    L(L),
    M(M),
    N(N),
    O(O),
    P(P),
}

/// The word that packs `held`: the erasure of its pointer with the tag of its
/// variant in the four lowest bits. `None` where the erasure is null or not clean
/// under the mask.
pub open spec fn packed16<
    A: ErasablePtr,
    B: ErasablePtr,
    C: ErasablePtr,
    D: ErasablePtr,
    E: ErasablePtr,
    F: ErasablePtr,
    G: ErasablePtr,
    H: ErasablePtr,
    I: ErasablePtr,
    J: ErasablePtr,
    K: ErasablePtr,
    L: ErasablePtr,
    M: ErasablePtr,
    N: ErasablePtr,
    O: ErasablePtr,
    P: ErasablePtr,
>(held: Enum16<A, B, C, D, E, F, G, H, I, J, K, L, M, N, O, P>) -> Option<usize> {
    match held {
        Enum16::A(a) => pack_word(a.erased(), MASK_16, TAG_A),
        Enum16::B(b) => pack_word(b.erased(), MASK_16, TAG_B),
        Enum16::C(c) => pack_word(c.erased(), MASK_16, TAG_C),
        Enum16::D(d) => pack_word(d.erased(), MASK_16, TAG_D),
        Enum16::E(e) => pack_word(e.erased(), MASK_16, TAG_E),
        Enum16::F(f) => pack_word(f.erased(), MASK_16, TAG_F),
        Enum16::G(g) => pack_word(g.erased(), MASK_16, TAG_G),
        Enum16::H(h) => pack_word(h.erased(), MASK_16, TAG_H),
        Enum16::I(i) => pack_word(i.erased(), MASK_16, TAG_I),
        Enum16::J(j) => pack_word(j.erased(), MASK_16, TAG_J),
        Enum16::K(k) => pack_word(k.erased(), MASK_16, TAG_K),
        Enum16::L(l) => pack_word(l.erased(), MASK_16, TAG_L),
        Enum16::M(m) => pack_word(m.erased(), MASK_16, TAG_M),
        Enum16::N(n) => pack_word(n.erased(), MASK_16, TAG_N),
        Enum16::O(o) => pack_word(o.erased(), MASK_16, TAG_O),
        Enum16::P(p) => pack_word(p.erased(), MASK_16, TAG_P),
    }
}

/// Whether the pointer of `held` erases to an address that leaves room for the
/// tag, so that `held` can be packed.
pub open spec fn fits16<
    A: ErasablePtr,
    B: ErasablePtr,
    C: ErasablePtr,
    D: ErasablePtr,
    E: ErasablePtr,
    F: ErasablePtr,
    G: ErasablePtr,
    H: ErasablePtr,
    I: ErasablePtr,
    J: ErasablePtr,
    K: ErasablePtr,
    L: ErasablePtr,
    M: ErasablePtr,
    N: ErasablePtr,
    O: ErasablePtr,
    P: ErasablePtr,
>(held: Enum16<A, B, C, D, E, F, G, H, I, J, K, L, M, N, O, P>) -> bool {
    match held {
        Enum16::A(a) => is_clean(a, MASK_16),
        Enum16::B(b) => is_clean(b, MASK_16),
        Enum16::C(c) => is_clean(c, MASK_16),
        Enum16::D(d) => is_clean(d, MASK_16),
        Enum16::E(e) => is_clean(e, MASK_16),
        Enum16::F(f) => is_clean(f, MASK_16),
        Enum16::G(g) => is_clean(g, MASK_16),
        Enum16::H(h) => is_clean(h, MASK_16),
        Enum16::I(i) => is_clean(i, MASK_16),
        Enum16::J(j) => is_clean(j, MASK_16),
        Enum16::K(k) => is_clean(k, MASK_16),
        Enum16::L(l) => is_clean(l, MASK_16),
        Enum16::M(m) => is_clean(m, MASK_16),
        Enum16::N(n) => is_clean(n, MASK_16),
        Enum16::O(o) => is_clean(o, MASK_16),
        Enum16::P(p) => is_clean(p, MASK_16),
    }
}

/// Whether `word` packs a pointer of one of the sixteen types: its tag names a
/// variant, and without the tag it is the erasure of a pointer of that
/// variant's type.
pub open spec fn is_packed16<
    A: ErasablePtr,
    B: ErasablePtr,
    C: ErasablePtr,
    D: ErasablePtr,
    E: ErasablePtr,
    F: ErasablePtr,
    G: ErasablePtr,
    H: ErasablePtr,
    I: ErasablePtr,
    J: ErasablePtr,
    K: ErasablePtr,
    L: ErasablePtr,
    M: ErasablePtr,
    N: ErasablePtr,
    O: ErasablePtr,
    P: ErasablePtr,
>(word: usize) -> bool {
    &&& untagged(word, MASK_16) != 0
    &&& {
        ||| tag_of(word, MASK_16) == TAG_A && is_erasure_of::<A>(untagged(word, MASK_16))
        ||| tag_of(word, MASK_16) == TAG_B && is_erasure_of::<B>(untagged(word, MASK_16))
        ||| tag_of(word, MASK_16) == TAG_C && is_erasure_of::<C>(untagged(word, MASK_16))
        ||| tag_of(word, MASK_16) == TAG_D && is_erasure_of::<D>(untagged(word, MASK_16))
        ||| tag_of(word, MASK_16) == TAG_E && is_erasure_of::<E>(untagged(word, MASK_16))
        ||| tag_of(word, MASK_16) == TAG_F && is_erasure_of::<F>(untagged(word, MASK_16))
        ||| tag_of(word, MASK_16) == TAG_G && is_erasure_of::<G>(untagged(word, MASK_16))
        ||| tag_of(word, MASK_16) == TAG_H && is_erasure_of::<H>(untagged(word, MASK_16))
        ||| tag_of(word, MASK_16) == TAG_I && is_erasure_of::<I>(untagged(word, MASK_16))
        ||| tag_of(word, MASK_16) == TAG_J && is_erasure_of::<J>(untagged(word, MASK_16))
        ||| tag_of(word, MASK_16) == TAG_K && is_erasure_of::<K>(untagged(word, MASK_16))
        ||| tag_of(word, MASK_16) == TAG_L && is_erasure_of::<L>(untagged(word, MASK_16))
        ||| tag_of(word, MASK_16) == TAG_M && is_erasure_of::<M>(untagged(word, MASK_16))
        ||| tag_of(word, MASK_16) == TAG_N && is_erasure_of::<N>(untagged(word, MASK_16))
        ||| tag_of(word, MASK_16) == TAG_O && is_erasure_of::<O>(untagged(word, MASK_16))
        ||| tag_of(word, MASK_16) == TAG_P && is_erasure_of::<P>(untagged(word, MASK_16))
    }
}

/// The pointer that `word` packs, in the variant that the tag of `word` names.
pub open spec fn unpacked16<
    A: ErasablePtr,
    B: ErasablePtr,
    C: ErasablePtr,
    D: ErasablePtr,
    E: ErasablePtr,
    F: ErasablePtr,
    G: ErasablePtr,
    H: ErasablePtr,
    I: ErasablePtr,
    J: ErasablePtr,
    K: ErasablePtr,
    L: ErasablePtr,
    M: ErasablePtr,
    N: ErasablePtr,
    O: ErasablePtr,
    P: ErasablePtr,
>(word: usize) -> Enum16<A, B, C, D, E, F, G, H, I, J, K, L, M, N, O, P> {
    if tag_of(word, MASK_16) == TAG_A {
        Enum16::A(unerased::<A>(untagged(word, MASK_16)))
    } else if tag_of(word, MASK_16) == TAG_B {
        Enum16::B(unerased::<B>(untagged(word, MASK_16)))
    } else if tag_of(word, MASK_16) == TAG_C {
        Enum16::C(unerased::<C>(untagged(word, MASK_16)))
    } else if tag_of(word, MASK_16) == TAG_D {
        Enum16::D(unerased::<D>(untagged(word, MASK_16)))
    } else if tag_of(word, MASK_16) == TAG_E {
        Enum16::E(unerased::<E>(untagged(word, MASK_16)))
    } else if tag_of(word, MASK_16) == TAG_F {
        Enum16::F(unerased::<F>(untagged(word, MASK_16)))
    } else if tag_of(word, MASK_16) == TAG_G {
        Enum16::G(unerased::<G>(untagged(word, MASK_16)))
    } else if tag_of(word, MASK_16) == TAG_H {
        Enum16::H(unerased::<H>(untagged(word, MASK_16)))
    } else if tag_of(word, MASK_16) == TAG_I {
        Enum16::I(unerased::<I>(untagged(word, MASK_16)))
    } else if tag_of(word, MASK_16) == TAG_J {
        Enum16::J(unerased::<J>(untagged(word, MASK_16)))
    } else if tag_of(word, MASK_16) == TAG_K {
        Enum16::K(unerased::<K>(untagged(word, MASK_16)))
    } else if tag_of(word, MASK_16) == TAG_L {
        Enum16::L(unerased::<L>(untagged(word, MASK_16)))
    } else if tag_of(word, MASK_16) == TAG_M {
        Enum16::M(unerased::<M>(untagged(word, MASK_16)))
    } else if tag_of(word, MASK_16) == TAG_N {
        Enum16::N(unerased::<N>(untagged(word, MASK_16)))
    } else if tag_of(word, MASK_16) == TAG_O {
        Enum16::O(unerased::<O>(untagged(word, MASK_16)))
    } else {
        Enum16::P(unerased::<P>(untagged(word, MASK_16)))
    }
}

/// Unpacking the word that packs `held` gives `held` again.
pub proof fn lemma_unpack_packed16<
    A: ErasablePtr,
    B: ErasablePtr,
    C: ErasablePtr,
    D: ErasablePtr,
    E: ErasablePtr,
    F: ErasablePtr,
    G: ErasablePtr,
    H: ErasablePtr,
    I: ErasablePtr,
    J: ErasablePtr,
    K: ErasablePtr,
    L: ErasablePtr,
    M: ErasablePtr,
    N: ErasablePtr,
    O: ErasablePtr,
    P: ErasablePtr,
>(held: Enum16<A, B, C, D, E, F, G, H, I, J, K, L, M, N, O, P>)
    requires
        packed16(held) is Some,
    ensures
        is_packed16::<A, B, C, D, E, F, G, H, I, J, K, L, M, N, O, P>(packed16(held).unwrap()),
        unpacked16::<A, B, C, D, E, F, G, H, I, J, K, L, M, N, O, P>(packed16(held).unwrap()) == held,
{
    lemma_tags_fit();
    match held {
        Enum16::A(a) => {
            lemma_set_tag(a.erased().unwrap(), MASK_16, TAG_A);
            lemma_unerased(a, a.erased().unwrap());
        },
        Enum16::B(b) => {
            lemma_set_tag(b.erased().unwrap(), MASK_16, TAG_B);
            lemma_unerased(b, b.erased().unwrap());
        },
        Enum16::C(c) => {
            lemma_set_tag(c.erased().unwrap(), MASK_16, TAG_C);
            lemma_unerased(c, c.erased().unwrap());
        },
        Enum16::D(d) => {
            lemma_set_tag(d.erased().unwrap(), MASK_16, TAG_D);
            lemma_unerased(d, d.erased().unwrap());
        },
        Enum16::E(e) => {
            lemma_set_tag(e.erased().unwrap(), MASK_16, TAG_E);
            lemma_unerased(e, e.erased().unwrap());
        },
        Enum16::F(f) => {
            lemma_set_tag(f.erased().unwrap(), MASK_16, TAG_F);
            lemma_unerased(f, f.erased().unwrap());
        },
        Enum16::G(g) => {
            lemma_set_tag(g.erased().unwrap(), MASK_16, TAG_G);
            lemma_unerased(g, g.erased().unwrap());
        },
        Enum16::H(h) => {
            lemma_set_tag(h.erased().unwrap(), MASK_16, TAG_H);
            lemma_unerased(h, h.erased().unwrap());
        },
        Enum16::I(i) => {
            lemma_set_tag(i.erased().unwrap(), MASK_16, TAG_I);
            lemma_unerased(i, i.erased().unwrap());
        },
        Enum16::J(j) => {
            lemma_set_tag(j.erased().unwrap(), MASK_16, TAG_J);
            lemma_unerased(j, j.erased().unwrap());
        },
        Enum16::K(k) => {
            lemma_set_tag(k.erased().unwrap(), MASK_16, TAG_K);
            lemma_unerased(k, k.erased().unwrap());
        },
        Enum16::L(l) => {
            lemma_set_tag(l.erased().unwrap(), MASK_16, TAG_L);
            lemma_unerased(l, l.erased().unwrap());
        },
        Enum16::M(m) => {
            lemma_set_tag(m.erased().unwrap(), MASK_16, TAG_M);
            lemma_unerased(m, m.erased().unwrap());
        },
        Enum16::N(n) => {
            lemma_set_tag(n.erased().unwrap(), MASK_16, TAG_N);
            lemma_unerased(n, n.erased().unwrap());
        },
        Enum16::O(o) => {
            lemma_set_tag(o.erased().unwrap(), MASK_16, TAG_O);
            lemma_unerased(o, o.erased().unwrap());
        },
        Enum16::P(p) => {
            lemma_set_tag(p.erased().unwrap(), MASK_16, TAG_P);
            lemma_unerased(p, p.erased().unwrap());
        },
    }
}

/// Round trip: packing what a packed word unpacks to gives the same word,
/// bit for bit.
pub proof fn lemma_pack_unpacked16<
    A: ErasablePtr,
    B: ErasablePtr,
    C: ErasablePtr,
    D: ErasablePtr,
    E: ErasablePtr,
    F: ErasablePtr,
    G: ErasablePtr,
    H: ErasablePtr,
    I: ErasablePtr,
    J: ErasablePtr,
    K: ErasablePtr,
    L: ErasablePtr,
    M: ErasablePtr,
    N: ErasablePtr,
    O: ErasablePtr,
    P: ErasablePtr,
>(word: usize)
    requires
        is_packed16::<A, B, C, D, E, F, G, H, I, J, K, L, M, N, O, P>(word),
    ensures
        packed16(unpacked16::<A, B, C, D, E, F, G, H, I, J, K, L, M, N, O, P>(word)) == Some(word),
{
    lemma_unset_tag(word, MASK_16);
}

/// Round trip: a pointer that is packed, unpacked and packed again gives the
/// word that packing it gave at first, bit for bit.
pub proof fn lemma_round_trip16<
    A: ErasablePtr,
    B: ErasablePtr,
    C: ErasablePtr,
    D: ErasablePtr,
    E: ErasablePtr,
    F: ErasablePtr,
    G: ErasablePtr,
    H: ErasablePtr,
    I: ErasablePtr,
    J: ErasablePtr,
    K: ErasablePtr,
    L: ErasablePtr,
    M: ErasablePtr,
    N: ErasablePtr,
    O: ErasablePtr,
    P: ErasablePtr,
>(held: Enum16<A, B, C, D, E, F, G, H, I, J, K, L, M, N, O, P>)
    requires
        packed16(held) is Some,
    ensures
        packed16(unpacked16::<A, B, C, D, E, F, G, H, I, J, K, L, M, N, O, P>(packed16(held).unwrap())) == packed16(held),
{
    lemma_unpack_packed16(held);
}

/// Identity: two packed words are the same word exactly when they pack the
/// same pointer in the same variant.
pub proof fn lemma_same_word_same_pointer16<
    A: ErasablePtr,
    B: ErasablePtr,
    C: ErasablePtr,
    D: ErasablePtr,
    E: ErasablePtr,
    F: ErasablePtr,
    G: ErasablePtr,
    H: ErasablePtr,
    I: ErasablePtr,
    J: ErasablePtr,
    K: ErasablePtr,
    L: ErasablePtr,
    M: ErasablePtr,
    N: ErasablePtr,
    O: ErasablePtr,
    P: ErasablePtr,
>(left: usize, right: usize)
    requires
        is_packed16::<A, B, C, D, E, F, G, H, I, J, K, L, M, N, O, P>(left),
        is_packed16::<A, B, C, D, E, F, G, H, I, J, K, L, M, N, O, P>(right),
    ensures
        left == right <==> unpacked16::<A, B, C, D, E, F, G, H, I, J, K, L, M, N, O, P>(left) == unpacked16::<A, B, C, D, E, F, G, H, I, J, K, L, M, N, O, P>(right),
{
    lemma_pack_unpacked16::<A, B, C, D, E, F, G, H, I, J, K, L, M, N, O, P>(left);
    lemma_pack_unpacked16::<A, B, C, D, E, F, G, H, I, J, K, L, M, N, O, P>(right);
}

/// Exclusivity: a packed word is of exactly one variant. Its tag is the tag
/// of the variant that it unpacks to, and of no other.
pub proof fn lemma_exclusive16<
    A: ErasablePtr,
    B: ErasablePtr,
    C: ErasablePtr,
    D: ErasablePtr,
    E: ErasablePtr,
    F: ErasablePtr,
    G: ErasablePtr,
    H: ErasablePtr,
    I: ErasablePtr,
    J: ErasablePtr,
    K: ErasablePtr,
    L: ErasablePtr,
    M: ErasablePtr,
    N: ErasablePtr,
    O: ErasablePtr,
    P: ErasablePtr,
>(word: usize)
    requires
        is_packed16::<A, B, C, D, E, F, G, H, I, J, K, L, M, N, O, P>(word),
    ensures
        unpacked16::<A, B, C, D, E, F, G, H, I, J, K, L, M, N, O, P>(word) is A <==> tag_of(word, MASK_16) == TAG_A,
        unpacked16::<A, B, C, D, E, F, G, H, I, J, K, L, M, N, O, P>(word) is B <==> tag_of(word, MASK_16) == TAG_B,
        unpacked16::<A, B, C, D, E, F, G, H, I, J, K, L, M, N, O, P>(word) is C <==> tag_of(word, MASK_16) == TAG_C,
        unpacked16::<A, B, C, D, E, F, G, H, I, J, K, L, M, N, O, P>(word) is D <==> tag_of(word, MASK_16) == TAG_D,
        unpacked16::<A, B, C, D, E, F, G, H, I, J, K, L, M, N, O, P>(word) is E <==> tag_of(word, MASK_16) == TAG_E,
        unpacked16::<A, B, C, D, E, F, G, H, I, J, K, L, M, N, O, P>(word) is F <==> tag_of(word, MASK_16) == TAG_F,
        unpacked16::<A, B, C, D, E, F, G, H, I, J, K, L, M, N, O, P>(word) is G <==> tag_of(word, MASK_16) == TAG_G,
        unpacked16::<A, B, C, D, E, F, G, H, I, J, K, L, M, N, O, P>(word) is H <==> tag_of(word, MASK_16) == TAG_H,
        unpacked16::<A, B, C, D, E, F, G, H, I, J, K, L, M, N, O, P>(word) is I <==> tag_of(word, MASK_16) == TAG_I,
        unpacked16::<A, B, C, D, E, F, G, H, I, J, K, L, M, N, O, P>(word) is J <==> tag_of(word, MASK_16) == TAG_J,
        unpacked16::<A, B, C, D, E, F, G, H, I, J, K, L, M, N, O, P>(word) is K <==> tag_of(word, MASK_16) == TAG_K,
        unpacked16::<A, B, C, D, E, F, G, H, I, J, K, L, M, N, O, P>(word) is L <==> tag_of(word, MASK_16) == TAG_L,
        unpacked16::<A, B, C, D, E, F, G, H, I, J, K, L, M, N, O, P>(word) is M <==> tag_of(word, MASK_16) == TAG_M,
        unpacked16::<A, B, C, D, E, F, G, H, I, J, K, L, M, N, O, P>(word) is N <==> tag_of(word, MASK_16) == TAG_N,
        unpacked16::<A, B, C, D, E, F, G, H, I, J, K, L, M, N, O, P>(word) is O <==> tag_of(word, MASK_16) == TAG_O,
        unpacked16::<A, B, C, D, E, F, G, H, I, J, K, L, M, N, O, P>(word) is P <==> tag_of(word, MASK_16) == TAG_P,
{
}

/// A builder for [`Union16`].
///
/// An instance of this builder is evidence that every pointer of its types
/// erases to an address that is a multiple of sixteen, so that a union can be
/// made of any of them without a check.
pub struct Builder16<
    A: ErasablePtr,
    B: ErasablePtr,
    C: ErasablePtr,
    D: ErasablePtr,
    E: ErasablePtr,
    F: ErasablePtr = NeverPtr,
    G: ErasablePtr = NeverPtr,
    H: ErasablePtr = NeverPtr,
    I: ErasablePtr = NeverPtr,
    J: ErasablePtr = NeverPtr,
    K: ErasablePtr = NeverPtr,
    L: ErasablePtr = NeverPtr,
    M: ErasablePtr = NeverPtr,
    N: ErasablePtr = NeverPtr,
    O: ErasablePtr = NeverPtr,
    P: ErasablePtr = NeverPtr,
> {
    phantom: PhantomData<Enum16<A, B, C, D, E, F, G, H, I, J, K, L, M, N, O, P>>,
}

impl<
    A: ErasablePtr,
    B: ErasablePtr,
    C: ErasablePtr,
    D: ErasablePtr,
    E: ErasablePtr,
    F: ErasablePtr,
    G: ErasablePtr,
    H: ErasablePtr,
    I: ErasablePtr,
    J: ErasablePtr,
    K: ErasablePtr,
    L: ErasablePtr,
    M: ErasablePtr,
    N: ErasablePtr,
    O: ErasablePtr,
    P: ErasablePtr,
> Clone for Builder16<A, B, C, D, E, F, G, H, I, J, K, L, M, N, O, P> {
    /// A builder is evidence and no more: a copy of it is the same evidence.
    fn clone(&self) -> (r: Self)
        ensures
            r == *self,
    {
        *self
    }
}

impl<
    A: ErasablePtr,
    B: ErasablePtr,
    C: ErasablePtr,
    D: ErasablePtr,
    E: ErasablePtr,
    F: ErasablePtr,
    G: ErasablePtr,
    H: ErasablePtr,
    I: ErasablePtr,
    J: ErasablePtr,
    K: ErasablePtr,
    L: ErasablePtr,
    M: ErasablePtr,
    N: ErasablePtr,
    O: ErasablePtr,
    P: ErasablePtr,
> Copy for Builder16<A, B, C, D, E, F, G, H, I, J, K, L, M, N, O, P> {}

impl<
    A: ErasablePtr,
    B: ErasablePtr,
    C: ErasablePtr,
    D: ErasablePtr,
    E: ErasablePtr,
    F: ErasablePtr,
    G: ErasablePtr,
    H: ErasablePtr,
    I: ErasablePtr,
    J: ErasablePtr,
    K: ErasablePtr,
    L: ErasablePtr,
    M: ErasablePtr,
    N: ErasablePtr,
    O: ErasablePtr,
    P: ErasablePtr,
> Builder16<A, B, C, D, E, F, G, H, I, J, K, L, M, N, O, P> {
    #[verifier::type_invariant]
    spec fn alignment_holds(self) -> bool {
        Self::safe_to_build()
    }

    /// What a builder is evidence of: the erasure of every pointer of its
    /// types is clean under the mask of the union.
    pub open spec fn safe_to_build() -> bool {
        &&& aligned_to::<A>(MASK_16)
        &&& aligned_to::<B>(MASK_16)
        &&& aligned_to::<C>(MASK_16)
        &&& aligned_to::<D>(MASK_16)
        &&& aligned_to::<E>(MASK_16)
        &&& aligned_to::<F>(MASK_16)
        &&& aligned_to::<G>(MASK_16)
        &&& aligned_to::<H>(MASK_16)
        &&& aligned_to::<I>(MASK_16)
        &&& aligned_to::<J>(MASK_16)
        &&& aligned_to::<K>(MASK_16)
        &&& aligned_to::<L>(MASK_16)
        &&& aligned_to::<M>(MASK_16)
        &&& aligned_to::<N>(MASK_16)
        &&& aligned_to::<O>(MASK_16)
        &&& aligned_to::<P>(MASK_16)
    }

    /// Assert that creating pointer unions of these types is safe.
    ///
    /// The alignment of the pointer types must meet the requirement of the
    /// union; nothing checks it when the program runs.
    pub fn new_unchecked() -> (r: Self)
        requires
            Self::safe_to_build(),
    {
        Builder16 { phantom: PhantomData }
    }

    /// Construct a union at this variant.
    pub fn a(self, this: A) -> (r: Union16<A, B, C, D, E, F, G, H, I, J, K, L, M, N, O, P>)
        ensures
            r@ == Enum16::<A, B, C, D, E, F, G, H, I, J, K, L, M, N, O, P>::A(this),
            packed16(Enum16::<A, B, C, D, E, F, G, H, I, J, K, L, M, N, O, P>::A(this)) == Some(r.word()),
    {
        proof {
            use_type_invariant(&self);
        }
        Enum16::<A, B, C, D, E, F, G, H, I, J, K, L, M, N, O, P>::A(this).pack_unchecked()
    }

    /// Construct a union at this variant.
    pub fn b(self, this: B) -> (r: Union16<A, B, C, D, E, F, G, H, I, J, K, L, M, N, O, P>)
        ensures
            r@ == Enum16::<A, B, C, D, E, F, G, H, I, J, K, L, M, N, O, P>::B(this),
            packed16(Enum16::<A, B, C, D, E, F, G, H, I, J, K, L, M, N, O, P>::B(this)) == Some(r.word()),
    {
        proof {
            use_type_invariant(&self);
        }
        Enum16::<A, B, C, D, E, F, G, H, I, J, K, L, M, N, O, P>::B(this).pack_unchecked()
    }

    /// Construct a union at this variant.
    pub fn c(self, this: C) -> (r: Union16<A, B, C, D, E, F, G, H, I, J, K, L, M, N, O, P>)
        ensures
            r@ == Enum16::<A, B, C, D, E, F, G, H, I, J, K, L, M, N, O, P>::C(this),
            packed16(Enum16::<A, B, C, D, E, F, G, H, I, J, K, L, M, N, O, P>::C(this)) == Some(r.word()),
    {
        proof {
            use_type_invariant(&self);
        }
        Enum16::<A, B, C, D, E, F, G, H, I, J, K, L, M, N, O, P>::C(this).pack_unchecked()
    }

    /// Construct a union at this variant.
    pub fn d(self, this: D) -> (r: Union16<A, B, C, D, E, F, G, H, I, J, K, L, M, N, O, P>)
        ensures
            r@ == Enum16::<A, B, C, D, E, F, G, H, I, J, K, L, M, N, O, P>::D(this),
            packed16(Enum16::<A, B, C, D, E, F, G, H, I, J, K, L, M, N, O, P>::D(this)) == Some(r.word()),
    {
        proof {
            use_type_invariant(&self);
        }
        Enum16::<A, B, C, D, E, F, G, H, I, J, K, L, M, N, O, P>::D(this).pack_unchecked()
    }

    /// Construct a union at this variant.
    pub fn e(self, this: E) -> (r: Union16<A, B, C, D, E, F, G, H, I, J, K, L, M, N, O, P>)
        ensures
            r@ == Enum16::<A, B, C, D, E, F, G, H, I, J, K, L, M, N, O, P>::E(this),
            packed16(Enum16::<A, B, C, D, E, F, G, H, I, J, K, L, M, N, O, P>::E(this)) == Some(r.word()),
    {
        proof {
            use_type_invariant(&self);
        }
        Enum16::<A, B, C, D, E, F, G, H, I, J, K, L, M, N, O, P>::E(this).pack_unchecked()
    }

    /// Construct a union at this variant.
    pub fn f(self, this: F) -> (r: Union16<A, B, C, D, E, F, G, H, I, J, K, L, M, N, O, P>)
        ensures
            r@ == Enum16::<A, B, C, D, E, F, G, H, I, J, K, L, M, N, O, P>::F(this),
            packed16(Enum16::<A, B, C, D, E, F, G, H, I, J, K, L, M, N, O, P>::F(this)) == Some(r.word()),
    {
        proof {
            use_type_invariant(&self);
        }
        Enum16::<A, B, C, D, E, F, G, H, I, J, K, L, M, N, O, P>::F(this).pack_unchecked()
    }

    /// Construct a union at this variant.
    pub fn g(self, this: G) -> (r: Union16<A, B, C, D, E, F, G, H, I, J, K, L, M, N, O, P>)
        ensures
            r@ == Enum16::<A, B, C, D, E, F, G, H, I, J, K, L, M, N, O, P>::G(this),
            packed16(Enum16::<A, B, C, D, E, F, G, H, I, J, K, L, M, N, O, P>::G(this)) == Some(r.word()),
    {
        proof {
            use_type_invariant(&self);
        }
        Enum16::<A, B, C, D, E, F, G, H, I, J, K, L, M, N, O, P>::G(this).pack_unchecked()
    }

    /// Construct a union at this variant.
    pub fn h(self, this: H) -> (r: Union16<A, B, C, D, E, F, G, H, I, J, K, L, M, N, O, P>)
        ensures
            r@ == Enum16::<A, B, C, D, E, F, G, H, I, J, K, L, M, N, O, P>::H(this),
            packed16(Enum16::<A, B, C, D, E, F, G, H, I, J, K, L, M, N, O, P>::H(this)) == Some(r.word()),
    {
        proof {
            use_type_invariant(&self);
        }
        Enum16::<A, B, C, D, E, F, G, H, I, J, K, L, M, N, O, P>::H(this).pack_unchecked()
    }

    /// Construct a union at this variant.
    pub fn i(self, this: I) -> (r: Union16<A, B, C, D, E, F, G, H, I, J, K, L, M, N, O, P>)
        ensures
            r@ == Enum16::<A, B, C, D, E, F, G, H, I, J, K, L, M, N, O, P>::I(this),
            packed16(Enum16::<A, B, C, D, E, F, G, H, I, J, K, L, M, N, O, P>::I(this)) == Some(r.word()),
    {
        proof {
            use_type_invariant(&self);
        }
        Enum16::<A, B, C, D, E, F, G, H, I, J, K, L, M, N, O, P>::I(this).pack_unchecked()
    }

    /// Construct a union at this variant.
    pub fn j(self, this: J) -> (r: Union16<A, B, C, D, E, F, G, H, I, J, K, L, M, N, O, P>)
        ensures
            r@ == Enum16::<A, B, C, D, E, F, G, H, I, J, K, L, M, N, O, P>::J(this),
            packed16(Enum16::<A, B, C, D, E, F, G, H, I, J, K, L, M, N, O, P>::J(this)) == Some(r.word()),
    {
        proof {
            use_type_invariant(&self);
        }
        Enum16::<A, B, C, D, E, F, G, H, I, J, K, L, M, N, O, P>::J(this).pack_unchecked()
    }

    /// Construct a union at this variant.
    pub fn k(self, this: K) -> (r: Union16<A, B, C, D, E, F, G, H, I, J, K, L, M, N, O, P>)
        ensures
            r@ == Enum16::<A, B, C, D, E, F, G, H, I, J, K, L, M, N, O, P>::K(this),
            packed16(Enum16::<A, B, C, D, E, F, G, H, I, J, K, L, M, N, O, P>::K(this)) == Some(r.word()),
    {
        proof {
            use_type_invariant(&self);
        }
        Enum16::<A, B, C, D, E, F, G, H, I, J, K, L, M, N, O, P>::K(this).pack_unchecked()
    }

    /// Construct a union at this variant.
    pub fn l(self, this: L) -> (r: Union16<A, B, C, D, E, F, G, H, I, J, K, L, M, N, O, P>)
        ensures
            r@ == Enum16::<A, B, C, D, E, F, G, H, I, J, K, L, M, N, O, P>::L(this),
            packed16(Enum16::<A, B, C, D, E, F, G, H, I, J, K, L, M, N, O, P>::L(this)) == Some(r.word()),
    {
        proof {
            use_type_invariant(&self);
        }
        Enum16::<A, B, C, D, E, F, G, H, I, J, K, L, M, N, O, P>::L(this).pack_unchecked()
    }

    /// Construct a union at this variant.
    pub fn m(self, this: M) -> (r: Union16<A, B, C, D, E, F, G, H, I, J, K, L, M, N, O, P>)
        ensures
            r@ == Enum16::<A, B, C, D, E, F, G, H, I, J, K, L, M, N, O, P>::M(this),
            packed16(Enum16::<A, B, C, D, E, F, G, H, I, J, K, L, M, N, O, P>::M(this)) == Some(r.word()),
    {
        proof {
            use_type_invariant(&self);
        }
        Enum16::<A, B, C, D, E, F, G, H, I, J, K, L, M, N, O, P>::M(this).pack_unchecked()
    }

    /// Construct a union at this variant.
    pub fn n(self, this: N) -> (r: Union16<A, B, C, D, E, F, G, H, I, J, K, L, M, N, O, P>)
        ensures
            r@ == Enum16::<A, B, C, D, E, F, G, H, I, J, K, L, M, N, O, P>::N(this),
            packed16(Enum16::<A, B, C, D, E, F, G, H, I, J, K, L, M, N, O, P>::N(this)) == Some(r.word()),
    {
        proof {
            use_type_invariant(&self);
        }
        Enum16::<A, B, C, D, E, F, G, H, I, J, K, L, M, N, O, P>::N(this).pack_unchecked()
    }

    /// Construct a union at this variant.
    pub fn o(self, this: O) -> (r: Union16<A, B, C, D, E, F, G, H, I, J, K, L, M, N, O, P>)
        ensures
            r@ == Enum16::<A, B, C, D, E, F, G, H, I, J, K, L, M, N, O, P>::O(this),
            packed16(Enum16::<A, B, C, D, E, F, G, H, I, J, K, L, M, N, O, P>::O(this)) == Some(r.word()),
    {
        proof {
            use_type_invariant(&self);
        }
        Enum16::<A, B, C, D, E, F, G, H, I, J, K, L, M, N, O, P>::O(this).pack_unchecked()
    }

    /// Construct a union at this variant.
    pub fn p(self, this: P) -> (r: Union16<A, B, C, D, E, F, G, H, I, J, K, L, M, N, O, P>)
        ensures
            r@ == Enum16::<A, B, C, D, E, F, G, H, I, J, K, L, M, N, O, P>::P(this),
            packed16(Enum16::<A, B, C, D, E, F, G, H, I, J, K, L, M, N, O, P>::P(this)) == Some(r.word()),
    {
        proof {
            use_type_invariant(&self);
        }
        Enum16::<A, B, C, D, E, F, G, H, I, J, K, L, M, N, O, P>::P(this).pack_unchecked()
    }
}

impl<
    A: ErasablePtr,
    B: ErasablePtr,
    C: ErasablePtr,
    D: ErasablePtr,
    E: ErasablePtr,
    F: ErasablePtr,
    G: ErasablePtr,
    H: ErasablePtr,
    I: ErasablePtr,
    J: ErasablePtr,
    K: ErasablePtr,
    L: ErasablePtr,
    M: ErasablePtr,
    N: ErasablePtr,
    O: ErasablePtr,
    P: ErasablePtr,
> Enum16<A, B, C, D, E, F, G, H, I, J, K, L, M, N, O, P> {
    /// Pack this loose enum into a pointer union.
    pub fn pack(self, builder: Builder16<A, B, C, D, E, F, G, H, I, J, K, L, M, N, O, P>) -> (r: Union16<A, B, C, D, E, F, G, H, I, J, K, L, M, N, O, P>)
        ensures
            r@ == self,
            packed16(self) == Some(r.word()),
    {
        match self {
            Enum16::A(this) => builder.a(this),
            Enum16::B(this) => builder.b(this),
            Enum16::C(this) => builder.c(this),
            Enum16::D(this) => builder.d(this),
            Enum16::E(this) => builder.e(this),
            Enum16::F(this) => builder.f(this),
            Enum16::G(this) => builder.g(this),
            Enum16::H(this) => builder.h(this),
            Enum16::I(this) => builder.i(this),
            Enum16::J(this) => builder.j(this),
            Enum16::K(this) => builder.k(this),
            Enum16::L(this) => builder.l(this),
            Enum16::M(this) => builder.m(this),
            Enum16::N(this) => builder.n(this),
            Enum16::O(this) => builder.o(this),
            Enum16::P(this) => builder.p(this),
        }
    }

    /// Pack this loose enum into a pointer union, with a dynamic alignment
    /// check. Returns the enum on error.
    pub fn try_pack(self) -> (r: Result<Union16<A, B, C, D, E, F, G, H, I, J, K, L, M, N, O, P>, Self>)
        ensures
            r is Ok <==> fits16(self),
            match r {
                Ok(made) => made@ == self && packed16(self) == Some(made.word()),
                Err(back) => back == self,
            },
    {
        match self {
            Enum16::A(this) => match Union16::new_a(this) {
                Ok(made) => Ok(made),
                Err(back) => Err(Enum16::A(back)),
            },
            Enum16::B(this) => match Union16::new_b(this) {
                Ok(made) => Ok(made),
                Err(back) => Err(Enum16::B(back)),
            },
            Enum16::C(this) => match Union16::new_c(this) {
                Ok(made) => Ok(made),
                Err(back) => Err(Enum16::C(back)),
            },
            Enum16::D(this) => match Union16::new_d(this) {
                Ok(made) => Ok(made),
                Err(back) => Err(Enum16::D(back)),
            },
            Enum16::E(this) => match Union16::new_e(this) {
                Ok(made) => Ok(made),
                Err(back) => Err(Enum16::E(back)),
            },
            Enum16::F(this) => match Union16::new_f(this) {
                Ok(made) => Ok(made),
                Err(back) => Err(Enum16::F(back)),
            },
            Enum16::G(this) => match Union16::new_g(this) {
                Ok(made) => Ok(made),
                Err(back) => Err(Enum16::G(back)),
            },
            Enum16::H(this) => match Union16::new_h(this) {
                Ok(made) => Ok(made),
                Err(back) => Err(Enum16::H(back)),
            },
            Enum16::I(this) => match Union16::new_i(this) {
                Ok(made) => Ok(made),
                Err(back) => Err(Enum16::I(back)),
            },
            Enum16::J(this) => match Union16::new_j(this) {
                Ok(made) => Ok(made),
                Err(back) => Err(Enum16::J(back)),
            },
            Enum16::K(this) => match Union16::new_k(this) {
                Ok(made) => Ok(made),
                Err(back) => Err(Enum16::K(back)),
            },
            Enum16::L(this) => match Union16::new_l(this) {
                Ok(made) => Ok(made),
                Err(back) => Err(Enum16::L(back)),
            },
            Enum16::M(this) => match Union16::new_m(this) {
                Ok(made) => Ok(made),
                Err(back) => Err(Enum16::M(back)),
            },
            Enum16::N(this) => match Union16::new_n(this) {
                Ok(made) => Ok(made),
                Err(back) => Err(Enum16::N(back)),
            },
            Enum16::O(this) => match Union16::new_o(this) {
                Ok(made) => Ok(made),
                Err(back) => Err(Enum16::O(back)),
            },
            Enum16::P(this) => match Union16::new_p(this) {
                Ok(made) => Ok(made),
                Err(back) => Err(Enum16::P(back)),
            },
        }
    }

    /// Pack this loose enum into a pointer union.
    ///
    /// The pointer packed must be properly aligned. Only the pointer that is
    /// packed is restricted, not the other pointer types of the union.
    pub fn pack_unchecked(self) -> (r: Union16<A, B, C, D, E, F, G, H, I, J, K, L, M, N, O, P>)
        requires
            fits16(self),
        ensures
            r@ == self,
            packed16(self) == Some(r.word()),
    {
        proof {
            lemma_tags_fit();
        }
        match self {
            Enum16::A(this) => {
                let word = A::erase(this);
                proof {
                    use_type_invariant(&word);
                    word.lemma_non_null();
                    lemma_unpack_packed16(self);
                }
                Union16 { raw: set_tag(word, MASK_16, TAG_A), phantom: PhantomData }
            },
            Enum16::B(this) => {
                let word = B::erase(this);
                proof {
                    use_type_invariant(&word);
                    word.lemma_non_null();
                    lemma_unpack_packed16(self);
                }
                Union16 { raw: set_tag(word, MASK_16, TAG_B), phantom: PhantomData }
            },
            Enum16::C(this) => {
                let word = C::erase(this);
                proof {
                    use_type_invariant(&word);
                    word.lemma_non_null();
                    lemma_unpack_packed16(self);
                }
                Union16 { raw: set_tag(word, MASK_16, TAG_C), phantom: PhantomData }
            },
            Enum16::D(this) => {
                let word = D::erase(this);
                proof {
                    use_type_invariant(&word);
                    word.lemma_non_null();
                    lemma_unpack_packed16(self);
                }
                Union16 { raw: set_tag(word, MASK_16, TAG_D), phantom: PhantomData }
            },
            Enum16::E(this) => {
                let word = E::erase(this);
                proof {
                    use_type_invariant(&word);
                    word.lemma_non_null();
                    lemma_unpack_packed16(self);
                }
                Union16 { raw: set_tag(word, MASK_16, TAG_E), phantom: PhantomData }
            },
            Enum16::F(this) => {
                let word = F::erase(this);
                proof {
                    use_type_invariant(&word);
                    word.lemma_non_null();
                    lemma_unpack_packed16(self);
                }
                Union16 { raw: set_tag(word, MASK_16, TAG_F), phantom: PhantomData }
            },
            Enum16::G(this) => {
                let word = G::erase(this);
                proof {
                    use_type_invariant(&word);
                    word.lemma_non_null();
                    lemma_unpack_packed16(self);
                }
                Union16 { raw: set_tag(word, MASK_16, TAG_G), phantom: PhantomData }
            },
            Enum16::H(this) => {
                let word = H::erase(this);
                proof {
                    use_type_invariant(&word);
                    word.lemma_non_null();
                    lemma_unpack_packed16(self);
                }
                Union16 { raw: set_tag(word, MASK_16, TAG_H), phantom: PhantomData }
            },
            Enum16::I(this) => {
                let word = I::erase(this);
                proof {
                    use_type_invariant(&word);
                    word.lemma_non_null();
                    lemma_unpack_packed16(self);
                }
                Union16 { raw: set_tag(word, MASK_16, TAG_I), phantom: PhantomData }
            },
            Enum16::J(this) => {
                let word = J::erase(this);
                proof {
                    use_type_invariant(&word);
                    word.lemma_non_null();
                    lemma_unpack_packed16(self);
                }
                Union16 { raw: set_tag(word, MASK_16, TAG_J), phantom: PhantomData }
            },
            Enum16::K(this) => {
                let word = K::erase(this);
                proof {
                    use_type_invariant(&word);
                    word.lemma_non_null();
                    lemma_unpack_packed16(self);
                }
                Union16 { raw: set_tag(word, MASK_16, TAG_K), phantom: PhantomData }
            },
            Enum16::L(this) => {
                let word = L::erase(this);
                proof {
                    use_type_invariant(&word);
                    word.lemma_non_null();
                    lemma_unpack_packed16(self);
                }
                Union16 { raw: set_tag(word, MASK_16, TAG_L), phantom: PhantomData }
            },
            Enum16::M(this) => {
                let word = M::erase(this);
                proof {
                    use_type_invariant(&word);
                    word.lemma_non_null();
                    lemma_unpack_packed16(self);
                }
                Union16 { raw: set_tag(word, MASK_16, TAG_M), phantom: PhantomData }
            },
            Enum16::N(this) => {
                let word = N::erase(this);
                proof {
                    use_type_invariant(&word);
                    word.lemma_non_null();
                    lemma_unpack_packed16(self);
                }
                Union16 { raw: set_tag(word, MASK_16, TAG_N), phantom: PhantomData }
            },
            Enum16::O(this) => {
                let word = O::erase(this);
                proof {
                    use_type_invariant(&word);
                    word.lemma_non_null();
                    lemma_unpack_packed16(self);
                }
                Union16 { raw: set_tag(word, MASK_16, TAG_O), phantom: PhantomData }
            },
            Enum16::P(this) => {
                let word = P::erase(this);
                proof {
                    use_type_invariant(&word);
                    word.lemma_non_null();
                    lemma_unpack_packed16(self);
                }
                Union16 { raw: set_tag(word, MASK_16, TAG_P), phantom: PhantomData }
            },
        }
    }
}

/// A pointer union of sixteen pointer types.
///
/// This is a tagged union of sixteen pointer types that is only as big as a
/// single pointer: the tag is kept in the four lowest bits of the address. As
/// such, the pointer must be aligned to at least sixteen bytes, which
/// [`Builder16`] vouches for and the `new_` constructors check.
///
/// The last pointer types may be left out to make a smaller union.
///
/// The view of a union is the pointer that it holds, as an [`Enum16`].
pub struct Union16<
    A: ErasablePtr,
    B: ErasablePtr,
    C: ErasablePtr,
    D: ErasablePtr,
    E: ErasablePtr,
    F: ErasablePtr,
    G: ErasablePtr,
    H: ErasablePtr,
    I: ErasablePtr,
    J: ErasablePtr = NeverPtr,
    K: ErasablePtr = NeverPtr,
    L: ErasablePtr = NeverPtr,
    M: ErasablePtr = NeverPtr,
    N: ErasablePtr = NeverPtr,
    O: ErasablePtr = NeverPtr,
    P: ErasablePtr = NeverPtr,
> {
    raw: ErasedPtr,
    phantom: PhantomData<Enum16<A, B, C, D, E, F, G, H, I, J, K, L, M, N, O, P>>,
}

impl<
    A: ErasablePtr,
    B: ErasablePtr,
    C: ErasablePtr,
    D: ErasablePtr,
    E: ErasablePtr,
    F: ErasablePtr,
    G: ErasablePtr,
    H: ErasablePtr,
    I: ErasablePtr,
    J: ErasablePtr,
    K: ErasablePtr,
    L: ErasablePtr,
    M: ErasablePtr,
    N: ErasablePtr,
    O: ErasablePtr,
    P: ErasablePtr,
> View for Union16<A, B, C, D, E, F, G, H, I, J, K, L, M, N, O, P> {
    type V = Enum16<A, B, C, D, E, F, G, H, I, J, K, L, M, N, O, P>;

    open spec fn view(&self) -> Enum16<A, B, C, D, E, F, G, H, I, J, K, L, M, N, O, P> {
        unpacked16::<A, B, C, D, E, F, G, H, I, J, K, L, M, N, O, P>(self.word())
    }
}

impl<
    A: ErasablePtr,
    B: ErasablePtr,
    C: ErasablePtr,
    D: ErasablePtr,
    E: ErasablePtr,
    F: ErasablePtr,
    G: ErasablePtr,
    H: ErasablePtr,
    I: ErasablePtr,
    J: ErasablePtr,
    K: ErasablePtr,
    L: ErasablePtr,
    M: ErasablePtr,
    N: ErasablePtr,
    O: ErasablePtr,
    P: ErasablePtr,
> Union16<A, B, C, D, E, F, G, H, I, J, K, L, M, N, O, P> {
    /// The tagged word that is all there is of this union.
    pub closed spec fn word(self) -> usize {
        self.raw@
    }

    /// Whether the word of this union packs a pointer of one of its variants.
    /// This holds of every union that a program can reach.
    #[verifier::type_invariant]
    pub open spec fn wf(self) -> bool {
        is_packed16::<A, B, C, D, E, F, G, H, I, J, K, L, M, N, O, P>(self.word())
    }

    /// Whether this union and `other` are the same variant and hold the same
    /// pointer: whether they are the same word.
    pub open spec fn same_pointer(self, other: Self) -> bool {
        self.word() == other.word()
    }

    /// Being the same pointer is reflexive, symmetric and transitive, and
    /// unions that are the same pointer hold the same pointer.
    pub proof fn lemma_same_pointer(self, other: Self, third: Self)
        requires
            self.wf(),
            other.wf(),
        ensures
            self.same_pointer(self),
            self.same_pointer(other) == other.same_pointer(self),
            self.same_pointer(other) && other.same_pointer(third) ==> self.same_pointer(third),
            self.same_pointer(other) <==> self@ == other@,
    {
        lemma_same_word_same_pointer16::<A, B, C, D, E, F, G, H, I, J, K, L, M, N, O, P>(self.word(), other.word());
    }

    /// Unions with the same word are the same union.
    pub proof fn lemma_same_word(self, other: Self)
        requires
            self.word() == other.word(),
        ensures
            self == other,
    {
        self.raw.lemma_same_address(other.raw);
    }

    /// Construct a variant of this union with a dynamic alignment check.
    ///
    /// Returns the pointer on error.
    pub fn new_a(a: A) -> (r: Result<Self, A>)
        ensures
            a.erased() is Some,
            r is Ok <==> a.erased().unwrap() % 16 == 0,
            r is Ok <==> is_clean(a, MASK_16),
            match r {
                Ok(made) => made@ == Enum16::<A, B, C, D, E, F, G, H, I, J, K, L, M, N, O, P>::A(a)
                    && packed16(Enum16::<A, B, C, D, E, F, G, H, I, J, K, L, M, N, O, P>::A(a)) == Some(made.word()),
                Err(back) => back == a,
            },
    {
        let word = A::erase(a);
        proof {
            use_type_invariant(&word);
            word.lemma_non_null();
            lemma_tags_fit();
            lemma_clean_is_multiple(word@);
        }
        if check_tag(word, MASK_16, 0) {
            proof {
                lemma_unpack_packed16(Enum16::<A, B, C, D, E, F, G, H, I, J, K, L, M, N, O, P>::A(a));
            }
            Ok(Union16 { raw: set_tag(word, MASK_16, TAG_A), phantom: PhantomData })
        } else {
            proof {
                lemma_unerased(a, word@);
            }
            Err(restore::<A>(word))
        }
    }

    /// Check if the union is this variant.
    pub fn is_a(&self) -> (r: bool)
        ensures
            r == (self@ is A),
            r == (tag_of(self.word(), MASK_16) == TAG_A),
    {
        proof {
            use_type_invariant(self);
        }
        check_tag(self.raw, MASK_16, TAG_A)
    }

    /// Extract this variant from the union.
    ///
    /// Returns the union on error.
    pub fn into_a(self) -> (r: Result<A, Self>)
        ensures
            match r {
                Ok(this) => self@ == Enum16::<A, B, C, D, E, F, G, H, I, J, K, L, M, N, O, P>::A(this),
                Err(back) => !(self@ is A) && back == self,
            },
    {
        if self.is_a() {
            proof {
                use_type_invariant(&self);
            }
            let this = ManuallyDrop::new(self);
            Ok(restore::<A>(unset_tag(this.raw, MASK_16, TAG_A)))
        } else {
            Err(self)
        }
    }

    /// Run a closure with this variant.
    pub fn with_a<R, Func: FnOnce(&A) -> R>(&self, func: Func) -> (r: Option<R>)
        requires
            self@ matches Enum16::A(this) ==> func.requires((&this,)),
        ensures
            match r {
                Some(x) => self@ matches Enum16::A(this) && func.ensures((&this,), x),
                None => !(self@ is A),
            },
    {
        if self.is_a() {
            proof {
                use_type_invariant(self);
            }
            Some(with_erased::<A, R, Func>(unset_tag(self.raw, MASK_16, TAG_A), func))
        } else {
            None
        }
    }

    /// Clone this variant out of the union.
    pub fn clone_a(&self) -> (r: Option<A>) where A: Clone
        ensures
            match r {
                Some(twin) => self@ matches Enum16::A(this) && cloned::<A>(this, twin),
                None => !(self@ is A),
            },
    {
        if self.is_a() {
            proof {
                use_type_invariant(self);
            }
            Some(clone_erased::<A>(unset_tag(self.raw, MASK_16, TAG_A)))
        } else {
            None
        }
    }

    /// Copy this variant out of the union.
    pub fn copy_a(&self) -> (r: Option<A>) where A: Copy
        ensures
            match r {
                Some(twin) => self@ == Enum16::<A, B, C, D, E, F, G, H, I, J, K, L, M, N, O, P>::A(twin),
                None => !(self@ is A),
            },
    {
        if self.is_a() {
            proof {
                use_type_invariant(self);
            }
            Some(copy_erased::<A>(unset_tag(self.raw, MASK_16, TAG_A)))
        } else {
            None
        }
    }

    /// Construct a variant of this union with a dynamic alignment check.
    ///
    /// Returns the pointer on error.
    pub fn new_b(b: B) -> (r: Result<Self, B>)
        ensures
            b.erased() is Some,
            r is Ok <==> b.erased().unwrap() % 16 == 0,
            r is Ok <==> is_clean(b, MASK_16),
            match r {
                Ok(made) => made@ == Enum16::<A, B, C, D, E, F, G, H, I, J, K, L, M, N, O, P>::B(b)
                    && packed16(Enum16::<A, B, C, D, E, F, G, H, I, J, K, L, M, N, O, P>::B(b)) == Some(made.word()),
                Err(back) => back == b,
            },
    {
        let word = B::erase(b);
        proof {
            use_type_invariant(&word);
            word.lemma_non_null();
            lemma_tags_fit();
            lemma_clean_is_multiple(word@);
        }
        if check_tag(word, MASK_16, 0) {
            proof {
                lemma_unpack_packed16(Enum16::<A, B, C, D, E, F, G, H, I, J, K, L, M, N, O, P>::B(b));
            }
            Ok(Union16 { raw: set_tag(word, MASK_16, TAG_B), phantom: PhantomData })
        } else {
            proof {
                lemma_unerased(b, word@);
            }
            Err(restore::<B>(word))
        }
    }

    /// Check if the union is this variant.
    pub fn is_b(&self) -> (r: bool)
        ensures
            r == (self@ is B),
            r == (tag_of(self.word(), MASK_16) == TAG_B),
    {
        proof {
            use_type_invariant(self);
        }
        check_tag(self.raw, MASK_16, TAG_B)
    }

    /// Extract this variant from the union.
    ///
    /// Returns the union on error.
    pub fn into_b(self) -> (r: Result<B, Self>)
        ensures
            match r {
                Ok(this) => self@ == Enum16::<A, B, C, D, E, F, G, H, I, J, K, L, M, N, O, P>::B(this),
                Err(back) => !(self@ is B) && back == self,
            },
    {
        if self.is_b() {
            proof {
                use_type_invariant(&self);
            }
            let this = ManuallyDrop::new(self);
            Ok(restore::<B>(unset_tag(this.raw, MASK_16, TAG_B)))
        } else {
            Err(self)
        }
    }

    /// Run a closure with this variant.
    pub fn with_b<R, Func: FnOnce(&B) -> R>(&self, func: Func) -> (r: Option<R>)
        requires
            self@ matches Enum16::B(this) ==> func.requires((&this,)),
        ensures
            match r {
                Some(x) => self@ matches Enum16::B(this) && func.ensures((&this,), x),
                None => !(self@ is B),
            },
    {
        if self.is_b() {
            proof {
                use_type_invariant(self);
            }
            Some(with_erased::<B, R, Func>(unset_tag(self.raw, MASK_16, TAG_B), func))
        } else {
            None
        }
    }

    /// Clone this variant out of the union.
    pub fn clone_b(&self) -> (r: Option<B>) where B: Clone
        ensures
            match r {
                Some(twin) => self@ matches Enum16::B(this) && cloned::<B>(this, twin),
                None => !(self@ is B),
            },
    {
        if self.is_b() {
            proof {
                use_type_invariant(self);
            }
            Some(clone_erased::<B>(unset_tag(self.raw, MASK_16, TAG_B)))
        } else {
            None
        }
    }

    /// Copy this variant out of the union.
    pub fn copy_b(&self) -> (r: Option<B>) where B: Copy
        ensures
            match r {
                Some(twin) => self@ == Enum16::<A, B, C, D, E, F, G, H, I, J, K, L, M, N, O, P>::B(twin),
                None => !(self@ is B),
            },
    {
        if self.is_b() {
            proof {
                use_type_invariant(self);
            }
            Some(copy_erased::<B>(unset_tag(self.raw, MASK_16, TAG_B)))
        } else {
            None
        }
    }

    /// Construct a variant of this union with a dynamic alignment check.
    ///
    /// Returns the pointer on error.
    pub fn new_c(c: C) -> (r: Result<Self, C>)
        ensures
            c.erased() is Some,
            r is Ok <==> c.erased().unwrap() % 16 == 0,
            r is Ok <==> is_clean(c, MASK_16),
            match r {
                Ok(made) => made@ == Enum16::<A, B, C, D, E, F, G, H, I, J, K, L, M, N, O, P>::C(c)
                    && packed16(Enum16::<A, B, C, D, E, F, G, H, I, J, K, L, M, N, O, P>::C(c)) == Some(made.word()),
                Err(back) => back == c,
            },
    {
        let word = C::erase(c);
        proof {
            use_type_invariant(&word);
            word.lemma_non_null();
            lemma_tags_fit();
            lemma_clean_is_multiple(word@);
        }
        if check_tag(word, MASK_16, 0) {
            proof {
                lemma_unpack_packed16(Enum16::<A, B, C, D, E, F, G, H, I, J, K, L, M, N, O, P>::C(c));
            }
            Ok(Union16 { raw: set_tag(word, MASK_16, TAG_C), phantom: PhantomData })
        } else {
            proof {
                lemma_unerased(c, word@);
            }
            Err(restore::<C>(word))
        }
    }

    /// Check if the union is this variant.
    pub fn is_c(&self) -> (r: bool)
        ensures
            r == (self@ is C),
            r == (tag_of(self.word(), MASK_16) == TAG_C),
    {
        proof {
            use_type_invariant(self);
        }
        check_tag(self.raw, MASK_16, TAG_C)
    }

    /// Extract this variant from the union.
    ///
    /// Returns the union on error.
    pub fn into_c(self) -> (r: Result<C, Self>)
        ensures
            match r {
                Ok(this) => self@ == Enum16::<A, B, C, D, E, F, G, H, I, J, K, L, M, N, O, P>::C(this),
                Err(back) => !(self@ is C) && back == self,
            },
    {
        if self.is_c() {
            proof {
                use_type_invariant(&self);
            }
            let this = ManuallyDrop::new(self);
            Ok(restore::<C>(unset_tag(this.raw, MASK_16, TAG_C)))
        } else {
            Err(self)
        }
    }

    /// Run a closure with this variant.
    pub fn with_c<R, Func: FnOnce(&C) -> R>(&self, func: Func) -> (r: Option<R>)
        requires
            self@ matches Enum16::C(this) ==> func.requires((&this,)),
        ensures
            match r {
                Some(x) => self@ matches Enum16::C(this) && func.ensures((&this,), x),
                None => !(self@ is C),
            },
    {
        if self.is_c() {
            proof {
                use_type_invariant(self);
            }
            Some(with_erased::<C, R, Func>(unset_tag(self.raw, MASK_16, TAG_C), func))
        } else {
            None
        }
    }

    /// Clone this variant out of the union.
    pub fn clone_c(&self) -> (r: Option<C>) where C: Clone
        ensures
            match r {
                Some(twin) => self@ matches Enum16::C(this) && cloned::<C>(this, twin),
                None => !(self@ is C),
            },
    {
        if self.is_c() {
            proof {
                use_type_invariant(self);
            }
            Some(clone_erased::<C>(unset_tag(self.raw, MASK_16, TAG_C)))
        } else {
            None
        }
    }

    /// Copy this variant out of the union.
    pub fn copy_c(&self) -> (r: Option<C>) where C: Copy
        ensures
            match r {
                Some(twin) => self@ == Enum16::<A, B, C, D, E, F, G, H, I, J, K, L, M, N, O, P>::C(twin),
                None => !(self@ is C),
            },
    {
        if self.is_c() {
            proof {
                use_type_invariant(self);
            }
            Some(copy_erased::<C>(unset_tag(self.raw, MASK_16, TAG_C)))
        } else {
            None
        }
    }

    /// Construct a variant of this union with a dynamic alignment check.
    ///
    /// Returns the pointer on error.
    pub fn new_d(d: D) -> (r: Result<Self, D>)
        ensures
            d.erased() is Some,
            r is Ok <==> d.erased().unwrap() % 16 == 0,
            r is Ok <==> is_clean(d, MASK_16),
            match r {
                Ok(made) => made@ == Enum16::<A, B, C, D, E, F, G, H, I, J, K, L, M, N, O, P>::D(d)
                    && packed16(Enum16::<A, B, C, D, E, F, G, H, I, J, K, L, M, N, O, P>::D(d)) == Some(made.word()),
                Err(back) => back == d,
            },
    {
        let word = D::erase(d);
        proof {
            use_type_invariant(&word);
            word.lemma_non_null();
            lemma_tags_fit();
            lemma_clean_is_multiple(word@);
        }
        if check_tag(word, MASK_16, 0) {
            proof {
                lemma_unpack_packed16(Enum16::<A, B, C, D, E, F, G, H, I, J, K, L, M, N, O, P>::D(d));
            }
            Ok(Union16 { raw: set_tag(word, MASK_16, TAG_D), phantom: PhantomData })
        } else {
            proof {
                lemma_unerased(d, word@);
            }
            Err(restore::<D>(word))
        }
    }

    /// Check if the union is this variant.
    pub fn is_d(&self) -> (r: bool)
        ensures
            r == (self@ is D),
            r == (tag_of(self.word(), MASK_16) == TAG_D),
    {
        proof {
            use_type_invariant(self);
        }
        check_tag(self.raw, MASK_16, TAG_D)
    }

    /// Extract this variant from the union.
    ///
    /// Returns the union on error.
    pub fn into_d(self) -> (r: Result<D, Self>)
        ensures
            match r {
                Ok(this) => self@ == Enum16::<A, B, C, D, E, F, G, H, I, J, K, L, M, N, O, P>::D(this),
                Err(back) => !(self@ is D) && back == self,
            },
    {
        if self.is_d() {
            proof {
                use_type_invariant(&self);
            }
            let this = ManuallyDrop::new(self);
            Ok(restore::<D>(unset_tag(this.raw, MASK_16, TAG_D)))
        } else {
            Err(self)
        }
    }

    /// Run a closure with this variant.
    pub fn with_d<R, Func: FnOnce(&D) -> R>(&self, func: Func) -> (r: Option<R>)
        requires
            self@ matches Enum16::D(this) ==> func.requires((&this,)),
        ensures
            match r {
                Some(x) => self@ matches Enum16::D(this) && func.ensures((&this,), x),
                None => !(self@ is D),
            },
    {
        if self.is_d() {
            proof {
                use_type_invariant(self);
            }
            Some(with_erased::<D, R, Func>(unset_tag(self.raw, MASK_16, TAG_D), func))
        } else {
            None
        }
    }

    /// Clone this variant out of the union.
    pub fn clone_d(&self) -> (r: Option<D>) where D: Clone
        ensures
            match r {
                Some(twin) => self@ matches Enum16::D(this) && cloned::<D>(this, twin),
                None => !(self@ is D),
            },
    {
        if self.is_d() {
            proof {
                use_type_invariant(self);
            }
            Some(clone_erased::<D>(unset_tag(self.raw, MASK_16, TAG_D)))
        } else {
            None
        }
    }

    /// Copy this variant out of the union.
    pub fn copy_d(&self) -> (r: Option<D>) where D: Copy
        ensures
            match r {
                Some(twin) => self@ == Enum16::<A, B, C, D, E, F, G, H, I, J, K, L, M, N, O, P>::D(twin),
                None => !(self@ is D),
            },
    {
        if self.is_d() {
            proof {
                use_type_invariant(self);
            }
            Some(copy_erased::<D>(unset_tag(self.raw, MASK_16, TAG_D)))
        } else {
            None
        }
    }

    /// Construct a variant of this union with a dynamic alignment check.
    ///
    /// Returns the pointer on error.
    pub fn new_e(e: E) -> (r: Result<Self, E>)
        ensures
            e.erased() is Some,
            r is Ok <==> e.erased().unwrap() % 16 == 0,
            r is Ok <==> is_clean(e, MASK_16),
            match r {
                Ok(made) => made@ == Enum16::<A, B, C, D, E, F, G, H, I, J, K, L, M, N, O, P>::E(e)
                    && packed16(Enum16::<A, B, C, D, E, F, G, H, I, J, K, L, M, N, O, P>::E(e)) == Some(made.word()),
                Err(back) => back == e,
            },
    {
        let word = E::erase(e);
        proof {
            use_type_invariant(&word);
            word.lemma_non_null();
            lemma_tags_fit();
            lemma_clean_is_multiple(word@);
        }
        if check_tag(word, MASK_16, 0) {
            proof {
                lemma_unpack_packed16(Enum16::<A, B, C, D, E, F, G, H, I, J, K, L, M, N, O, P>::E(e));
            }
            Ok(Union16 { raw: set_tag(word, MASK_16, TAG_E), phantom: PhantomData })
        } else {
            proof {
                lemma_unerased(e, word@);
            }
            Err(restore::<E>(word))
        }
    }

    /// Check if the union is this variant.
    pub fn is_e(&self) -> (r: bool)
        ensures
            r == (self@ is E),
            r == (tag_of(self.word(), MASK_16) == TAG_E),
    {
        proof {
            use_type_invariant(self);
        }
        check_tag(self.raw, MASK_16, TAG_E)
    }

    /// Extract this variant from the union.
    ///
    /// Returns the union on error.
    pub fn into_e(self) -> (r: Result<E, Self>)
        ensures
            match r {
                Ok(this) => self@ == Enum16::<A, B, C, D, E, F, G, H, I, J, K, L, M, N, O, P>::E(this),
                Err(back) => !(self@ is E) && back == self,
            },
    {
        if self.is_e() {
            proof {
                use_type_invariant(&self);
            }
            let this = ManuallyDrop::new(self);
            Ok(restore::<E>(unset_tag(this.raw, MASK_16, TAG_E)))
        } else {
            Err(self)
        }
    }

    /// Run a closure with this variant.
    pub fn with_e<R, Func: FnOnce(&E) -> R>(&self, func: Func) -> (r: Option<R>)
        requires
            self@ matches Enum16::E(this) ==> func.requires((&this,)),
        ensures
            match r {
                Some(x) => self@ matches Enum16::E(this) && func.ensures((&this,), x),
                None => !(self@ is E),
            },
    {
        if self.is_e() {
            proof {
                use_type_invariant(self);
            }
            Some(with_erased::<E, R, Func>(unset_tag(self.raw, MASK_16, TAG_E), func))
        } else {
            None
        }
    }

    /// Clone this variant out of the union.
    pub fn clone_e(&self) -> (r: Option<E>) where E: Clone
        ensures
            match r {
                Some(twin) => self@ matches Enum16::E(this) && cloned::<E>(this, twin),
                None => !(self@ is E),
            },
    {
        if self.is_e() {
            proof {
                use_type_invariant(self);
            }
            Some(clone_erased::<E>(unset_tag(self.raw, MASK_16, TAG_E)))
        } else {
            None
        }
    }

    /// Copy this variant out of the union.
    pub fn copy_e(&self) -> (r: Option<E>) where E: Copy
        ensures
            match r {
                Some(twin) => self@ == Enum16::<A, B, C, D, E, F, G, H, I, J, K, L, M, N, O, P>::E(twin),
                None => !(self@ is E),
            },
    {
        if self.is_e() {
            proof {
                use_type_invariant(self);
            }
            Some(copy_erased::<E>(unset_tag(self.raw, MASK_16, TAG_E)))
        } else {
            None
        }
    }

    /// Construct a variant of this union with a dynamic alignment check.
    ///
    /// Returns the pointer on error.
    pub fn new_f(f: F) -> (r: Result<Self, F>)
        ensures
            f.erased() is Some,
            r is Ok <==> f.erased().unwrap() % 16 == 0,
            r is Ok <==> is_clean(f, MASK_16),
            match r {
                Ok(made) => made@ == Enum16::<A, B, C, D, E, F, G, H, I, J, K, L, M, N, O, P>::F(f)
                    && packed16(Enum16::<A, B, C, D, E, F, G, H, I, J, K, L, M, N, O, P>::F(f)) == Some(made.word()),
                Err(back) => back == f,
            },
    {
        let word = F::erase(f);
        proof {
            use_type_invariant(&word);
            word.lemma_non_null();
            lemma_tags_fit();
            lemma_clean_is_multiple(word@);
        }
        if check_tag(word, MASK_16, 0) {
            proof {
                lemma_unpack_packed16(Enum16::<A, B, C, D, E, F, G, H, I, J, K, L, M, N, O, P>::F(f));
            }
            Ok(Union16 { raw: set_tag(word, MASK_16, TAG_F), phantom: PhantomData })
        } else {
            proof {
                lemma_unerased(f, word@);
            }
            Err(restore::<F>(word))
        }
    }

    /// Check if the union is this variant.
    pub fn is_f(&self) -> (r: bool)
        ensures
            r == (self@ is F),
            r == (tag_of(self.word(), MASK_16) == TAG_F),
    {
        proof {
            use_type_invariant(self);
        }
        check_tag(self.raw, MASK_16, TAG_F)
    }

    /// Extract this variant from the union.
    ///
    /// Returns the union on error.
    pub fn into_f(self) -> (r: Result<F, Self>)
        ensures
            match r {
                Ok(this) => self@ == Enum16::<A, B, C, D, E, F, G, H, I, J, K, L, M, N, O, P>::F(this),
                Err(back) => !(self@ is F) && back == self,
            },
    {
        if self.is_f() {
            proof {
                use_type_invariant(&self);
            }
            let this = ManuallyDrop::new(self);
            Ok(restore::<F>(unset_tag(this.raw, MASK_16, TAG_F)))
        } else {
            Err(self)
        }
    }

    /// Run a closure with this variant.
    pub fn with_f<R, Func: FnOnce(&F) -> R>(&self, func: Func) -> (r: Option<R>)
        requires
            self@ matches Enum16::F(this) ==> func.requires((&this,)),
        ensures
            match r {
                Some(x) => self@ matches Enum16::F(this) && func.ensures((&this,), x),
                None => !(self@ is F),
            },
    {
        if self.is_f() {
            proof {
                use_type_invariant(self);
            }
            Some(with_erased::<F, R, Func>(unset_tag(self.raw, MASK_16, TAG_F), func))
        } else {
            None
        }
    }

    /// Clone this variant out of the union.
    pub fn clone_f(&self) -> (r: Option<F>) where F: Clone
        ensures
            match r {
                Some(twin) => self@ matches Enum16::F(this) && cloned::<F>(this, twin),
                None => !(self@ is F),
            },
    {
        if self.is_f() {
            proof {
                use_type_invariant(self);
            }
            Some(clone_erased::<F>(unset_tag(self.raw, MASK_16, TAG_F)))
        } else {
            None
        }
    }

    /// Copy this variant out of the union.
    pub fn copy_f(&self) -> (r: Option<F>) where F: Copy
        ensures
            match r {
                Some(twin) => self@ == Enum16::<A, B, C, D, E, F, G, H, I, J, K, L, M, N, O, P>::F(twin),
                None => !(self@ is F),
            },
    {
        if self.is_f() {
            proof {
                use_type_invariant(self);
            }
            Some(copy_erased::<F>(unset_tag(self.raw, MASK_16, TAG_F)))
        } else {
            None
        }
    }

    /// Construct a variant of this union with a dynamic alignment check.
    ///
    /// Returns the pointer on error.
    pub fn new_g(g: G) -> (r: Result<Self, G>)
        ensures
            g.erased() is Some,
            r is Ok <==> g.erased().unwrap() % 16 == 0,
            r is Ok <==> is_clean(g, MASK_16),
            match r {
                Ok(made) => made@ == Enum16::<A, B, C, D, E, F, G, H, I, J, K, L, M, N, O, P>::G(g)
                    && packed16(Enum16::<A, B, C, D, E, F, G, H, I, J, K, L, M, N, O, P>::G(g)) == Some(made.word()),
                Err(back) => back == g,
            },
    {
        let word = G::erase(g);
        proof {
            use_type_invariant(&word);
            word.lemma_non_null();
            lemma_tags_fit();
            lemma_clean_is_multiple(word@);
        }
        if check_tag(word, MASK_16, 0) {
            proof {
                lemma_unpack_packed16(Enum16::<A, B, C, D, E, F, G, H, I, J, K, L, M, N, O, P>::G(g));
            }
            Ok(Union16 { raw: set_tag(word, MASK_16, TAG_G), phantom: PhantomData })
        } else {
            proof {
                lemma_unerased(g, word@);
            }
            Err(restore::<G>(word))
        }
    }

    /// Check if the union is this variant.
    pub fn is_g(&self) -> (r: bool)
        ensures
            r == (self@ is G),
            r == (tag_of(self.word(), MASK_16) == TAG_G),
    {
        proof {
            use_type_invariant(self);
        }
        check_tag(self.raw, MASK_16, TAG_G)
    }

    /// Extract this variant from the union.
    ///
    /// Returns the union on error.
    pub fn into_g(self) -> (r: Result<G, Self>)
        ensures
            match r {
                Ok(this) => self@ == Enum16::<A, B, C, D, E, F, G, H, I, J, K, L, M, N, O, P>::G(this),
                Err(back) => !(self@ is G) && back == self,
            },
    {
        if self.is_g() {
            proof {
                use_type_invariant(&self);
            }
            let this = ManuallyDrop::new(self);
            Ok(restore::<G>(unset_tag(this.raw, MASK_16, TAG_G)))
        } else {
            Err(self)
        }
    }

    /// Run a closure with this variant.
    pub fn with_g<R, Func: FnOnce(&G) -> R>(&self, func: Func) -> (r: Option<R>)
        requires
            self@ matches Enum16::G(this) ==> func.requires((&this,)),
        ensures
            match r {
                Some(x) => self@ matches Enum16::G(this) && func.ensures((&this,), x),
                None => !(self@ is G),
            },
    {
        if self.is_g() {
            proof {
                use_type_invariant(self);
            }
            Some(with_erased::<G, R, Func>(unset_tag(self.raw, MASK_16, TAG_G), func))
        } else {
            None
        }
    }

    /// Clone this variant out of the union.
    pub fn clone_g(&self) -> (r: Option<G>) where G: Clone
        ensures
            match r {
                Some(twin) => self@ matches Enum16::G(this) && cloned::<G>(this, twin),
                None => !(self@ is G),
            },
    {
        if self.is_g() {
            proof {
                use_type_invariant(self);
            }
            Some(clone_erased::<G>(unset_tag(self.raw, MASK_16, TAG_G)))
        } else {
            None
        }
    }

    /// Copy this variant out of the union.
    pub fn copy_g(&self) -> (r: Option<G>) where G: Copy
        ensures
            match r {
                Some(twin) => self@ == Enum16::<A, B, C, D, E, F, G, H, I, J, K, L, M, N, O, P>::G(twin),
                None => !(self@ is G),
            },
    {
        if self.is_g() {
            proof {
                use_type_invariant(self);
            }
            Some(copy_erased::<G>(unset_tag(self.raw, MASK_16, TAG_G)))
        } else {
            None
        }
    }

    /// Construct a variant of this union with a dynamic alignment check.
    ///
    /// Returns the pointer on error.
    pub fn new_h(h: H) -> (r: Result<Self, H>)
        ensures
            h.erased() is Some,
            r is Ok <==> h.erased().unwrap() % 16 == 0,
            r is Ok <==> is_clean(h, MASK_16),
            match r {
                Ok(made) => made@ == Enum16::<A, B, C, D, E, F, G, H, I, J, K, L, M, N, O, P>::H(h)
                    && packed16(Enum16::<A, B, C, D, E, F, G, H, I, J, K, L, M, N, O, P>::H(h)) == Some(made.word()),
                Err(back) => back == h,
            },
    {
        let word = H::erase(h);
        proof {
            use_type_invariant(&word);
            word.lemma_non_null();
            lemma_tags_fit();
            lemma_clean_is_multiple(word@);
        }
        if check_tag(word, MASK_16, 0) {
            proof {
                lemma_unpack_packed16(Enum16::<A, B, C, D, E, F, G, H, I, J, K, L, M, N, O, P>::H(h));
            }
            Ok(Union16 { raw: set_tag(word, MASK_16, TAG_H), phantom: PhantomData })
        } else {
            proof {
                lemma_unerased(h, word@);
            }
            Err(restore::<H>(word))
        }
    }

    /// Check if the union is this variant.
    pub fn is_h(&self) -> (r: bool)
        ensures
            r == (self@ is H),
            r == (tag_of(self.word(), MASK_16) == TAG_H),
    {
        proof {
            use_type_invariant(self);
        }
        check_tag(self.raw, MASK_16, TAG_H)
    }

    /// Extract this variant from the union.
    ///
    /// Returns the union on error.
    pub fn into_h(self) -> (r: Result<H, Self>)
        ensures
            match r {
                Ok(this) => self@ == Enum16::<A, B, C, D, E, F, G, H, I, J, K, L, M, N, O, P>::H(this),
                Err(back) => !(self@ is H) && back == self,
            },
    {
        if self.is_h() {
            proof {
                use_type_invariant(&self);
            }
            let this = ManuallyDrop::new(self);
            Ok(restore::<H>(unset_tag(this.raw, MASK_16, TAG_H)))
        } else {
            Err(self)
        }
    }

    /// Run a closure with this variant.
    pub fn with_h<R, Func: FnOnce(&H) -> R>(&self, func: Func) -> (r: Option<R>)
        requires
            self@ matches Enum16::H(this) ==> func.requires((&this,)),
        ensures
            match r {
                Some(x) => self@ matches Enum16::H(this) && func.ensures((&this,), x),
                None => !(self@ is H),
            },
    {
        if self.is_h() {
            proof {
                use_type_invariant(self);
            }
            Some(with_erased::<H, R, Func>(unset_tag(self.raw, MASK_16, TAG_H), func))
        } else {
            None
        }
    }

    /// Clone this variant out of the union.
    pub fn clone_h(&self) -> (r: Option<H>) where H: Clone
        ensures
            match r {
                Some(twin) => self@ matches Enum16::H(this) && cloned::<H>(this, twin),
                None => !(self@ is H),
            },
    {
        if self.is_h() {
            proof {
                use_type_invariant(self);
            }
            Some(clone_erased::<H>(unset_tag(self.raw, MASK_16, TAG_H)))
        } else {
            None
        }
    }

    /// Copy this variant out of the union.
    pub fn copy_h(&self) -> (r: Option<H>) where H: Copy
        ensures
            match r {
                Some(twin) => self@ == Enum16::<A, B, C, D, E, F, G, H, I, J, K, L, M, N, O, P>::H(twin),
                None => !(self@ is H),
            },
    {
        if self.is_h() {
            proof {
                use_type_invariant(self);
            }
            Some(copy_erased::<H>(unset_tag(self.raw, MASK_16, TAG_H)))
        } else {
            None
        }
    }

    /// Construct a variant of this union with a dynamic alignment check.
    ///
    /// Returns the pointer on error.
    pub fn new_i(i: I) -> (r: Result<Self, I>)
        ensures
            i.erased() is Some,
            r is Ok <==> i.erased().unwrap() % 16 == 0,
            r is Ok <==> is_clean(i, MASK_16),
            match r {
                Ok(made) => made@ == Enum16::<A, B, C, D, E, F, G, H, I, J, K, L, M, N, O, P>::I(i)
                    && packed16(Enum16::<A, B, C, D, E, F, G, H, I, J, K, L, M, N, O, P>::I(i)) == Some(made.word()),
                Err(back) => back == i,
            },
    {
        let word = I::erase(i);
        proof {
            use_type_invariant(&word);
            word.lemma_non_null();
            lemma_tags_fit();
            lemma_clean_is_multiple(word@);
        }
        if check_tag(word, MASK_16, 0) {
            proof {
                lemma_unpack_packed16(Enum16::<A, B, C, D, E, F, G, H, I, J, K, L, M, N, O, P>::I(i));
            }
            Ok(Union16 { raw: set_tag(word, MASK_16, TAG_I), phantom: PhantomData })
        } else {
            proof {
                lemma_unerased(i, word@);
            }
            Err(restore::<I>(word))
        }
    }

    /// Check if the union is this variant.
    pub fn is_i(&self) -> (r: bool)
        ensures
            r == (self@ is I),
            r == (tag_of(self.word(), MASK_16) == TAG_I),
    {
        proof {
            use_type_invariant(self);
        }
        check_tag(self.raw, MASK_16, TAG_I)
    }

    /// Extract this variant from the union.
    ///
    /// Returns the union on error.
    pub fn into_i(self) -> (r: Result<I, Self>)
        ensures
            match r {
                Ok(this) => self@ == Enum16::<A, B, C, D, E, F, G, H, I, J, K, L, M, N, O, P>::I(this),
                Err(back) => !(self@ is I) && back == self,
            },
    {
        if self.is_i() {
            proof {
                use_type_invariant(&self);
            }
            let this = ManuallyDrop::new(self);
            Ok(restore::<I>(unset_tag(this.raw, MASK_16, TAG_I)))
        } else {
            Err(self)
        }
    }

    /// Run a closure with this variant.
    pub fn with_i<R, Func: FnOnce(&I) -> R>(&self, func: Func) -> (r: Option<R>)
        requires
            self@ matches Enum16::I(this) ==> func.requires((&this,)),
        ensures
            match r {
                Some(x) => self@ matches Enum16::I(this) && func.ensures((&this,), x),
                None => !(self@ is I),
            },
    {
        if self.is_i() {
            proof {
                use_type_invariant(self);
            }
            Some(with_erased::<I, R, Func>(unset_tag(self.raw, MASK_16, TAG_I), func))
        } else {
            None
        }
    }

    /// Clone this variant out of the union.
    pub fn clone_i(&self) -> (r: Option<I>) where I: Clone
        ensures
            match r {
                Some(twin) => self@ matches Enum16::I(this) && cloned::<I>(this, twin),
                None => !(self@ is I),
            },
    {
        if self.is_i() {
            proof {
                use_type_invariant(self);
            }
            Some(clone_erased::<I>(unset_tag(self.raw, MASK_16, TAG_I)))
        } else {
            None
        }
    }

    /// Copy this variant out of the union.
    pub fn copy_i(&self) -> (r: Option<I>) where I: Copy
        ensures
            match r {
                Some(twin) => self@ == Enum16::<A, B, C, D, E, F, G, H, I, J, K, L, M, N, O, P>::I(twin),
                None => !(self@ is I),
            },
    {
        if self.is_i() {
            proof {
                use_type_invariant(self);
            }
            Some(copy_erased::<I>(unset_tag(self.raw, MASK_16, TAG_I)))
        } else {
            None
        }
    }

    /// Construct a variant of this union with a dynamic alignment check.
    ///
    /// Returns the pointer on error.
    pub fn new_j(j: J) -> (r: Result<Self, J>)
        ensures
            j.erased() is Some,
            r is Ok <==> j.erased().unwrap() % 16 == 0,
            r is Ok <==> is_clean(j, MASK_16),
            match r {
                Ok(made) => made@ == Enum16::<A, B, C, D, E, F, G, H, I, J, K, L, M, N, O, P>::J(j)
                    && packed16(Enum16::<A, B, C, D, E, F, G, H, I, J, K, L, M, N, O, P>::J(j)) == Some(made.word()),
                Err(back) => back == j,
            },
    {
        let word = J::erase(j);
        proof {
            use_type_invariant(&word);
            word.lemma_non_null();
            lemma_tags_fit();
            lemma_clean_is_multiple(word@);
        }
        if check_tag(word, MASK_16, 0) {
            proof {
                lemma_unpack_packed16(Enum16::<A, B, C, D, E, F, G, H, I, J, K, L, M, N, O, P>::J(j));
            }
            Ok(Union16 { raw: set_tag(word, MASK_16, TAG_J), phantom: PhantomData })
        } else {
            proof {
                lemma_unerased(j, word@);
            }
            Err(restore::<J>(word))
        }
    }

    /// Check if the union is this variant.
    pub fn is_j(&self) -> (r: bool)
        ensures
            r == (self@ is J),
            r == (tag_of(self.word(), MASK_16) == TAG_J),
    {
        proof {
            use_type_invariant(self);
        }
        check_tag(self.raw, MASK_16, TAG_J)
    }

    /// Extract this variant from the union.
    ///
    /// Returns the union on error.
    pub fn into_j(self) -> (r: Result<J, Self>)
        ensures
            match r {
                Ok(this) => self@ == Enum16::<A, B, C, D, E, F, G, H, I, J, K, L, M, N, O, P>::J(this),
                Err(back) => !(self@ is J) && back == self,
            },
    {
        if self.is_j() {
            proof {
                use_type_invariant(&self);
            }
            let this = ManuallyDrop::new(self);
            Ok(restore::<J>(unset_tag(this.raw, MASK_16, TAG_J)))
        } else {
            Err(self)
        }
    }

    /// Run a closure with this variant.
    pub fn with_j<R, Func: FnOnce(&J) -> R>(&self, func: Func) -> (r: Option<R>)
        requires
            self@ matches Enum16::J(this) ==> func.requires((&this,)),
        ensures
            match r {
                Some(x) => self@ matches Enum16::J(this) && func.ensures((&this,), x),
                None => !(self@ is J),
            },
    {
        if self.is_j() {
            proof {
                use_type_invariant(self);
            }
            Some(with_erased::<J, R, Func>(unset_tag(self.raw, MASK_16, TAG_J), func))
        } else {
            None
        }
    }

    /// Clone this variant out of the union.
    pub fn clone_j(&self) -> (r: Option<J>) where J: Clone
        ensures
            match r {
                Some(twin) => self@ matches Enum16::J(this) && cloned::<J>(this, twin),
                None => !(self@ is J),
            },
    {
        if self.is_j() {
            proof {
                use_type_invariant(self);
            }
            Some(clone_erased::<J>(unset_tag(self.raw, MASK_16, TAG_J)))
        } else {
            None
        }
    }

    /// Copy this variant out of the union.
    pub fn copy_j(&self) -> (r: Option<J>) where J: Copy
        ensures
            match r {
                Some(twin) => self@ == Enum16::<A, B, C, D, E, F, G, H, I, J, K, L, M, N, O, P>::J(twin),
                None => !(self@ is J),
            },
    {
        if self.is_j() {
            proof {
                use_type_invariant(self);
            }
            Some(copy_erased::<J>(unset_tag(self.raw, MASK_16, TAG_J)))
        } else {
            None
        }
    }

    /// Construct a variant of this union with a dynamic alignment check.
    ///
    /// Returns the pointer on error.
    pub fn new_k(k: K) -> (r: Result<Self, K>)
        ensures
            k.erased() is Some,
            r is Ok <==> k.erased().unwrap() % 16 == 0,
            r is Ok <==> is_clean(k, MASK_16),
            match r {
                Ok(made) => made@ == Enum16::<A, B, C, D, E, F, G, H, I, J, K, L, M, N, O, P>::K(k)
                    && packed16(Enum16::<A, B, C, D, E, F, G, H, I, J, K, L, M, N, O, P>::K(k)) == Some(made.word()),
                Err(back) => back == k,
            },
    {
        let word = K::erase(k);
        proof {
            use_type_invariant(&word);
            word.lemma_non_null();
            lemma_tags_fit();
            lemma_clean_is_multiple(word@);
        }
        if check_tag(word, MASK_16, 0) {
            proof {
                lemma_unpack_packed16(Enum16::<A, B, C, D, E, F, G, H, I, J, K, L, M, N, O, P>::K(k));
            }
            Ok(Union16 { raw: set_tag(word, MASK_16, TAG_K), phantom: PhantomData })
        } else {
            proof {
                lemma_unerased(k, word@);
            }
            Err(restore::<K>(word))
        }
    }

    /// Check if the union is this variant.
    pub fn is_k(&self) -> (r: bool)
        ensures
            r == (self@ is K),
            r == (tag_of(self.word(), MASK_16) == TAG_K),
    {
        proof {
            use_type_invariant(self);
        }
        check_tag(self.raw, MASK_16, TAG_K)
    }

    /// Extract this variant from the union.
    ///
    /// Returns the union on error.
    pub fn into_k(self) -> (r: Result<K, Self>)
        ensures
            match r {
                Ok(this) => self@ == Enum16::<A, B, C, D, E, F, G, H, I, J, K, L, M, N, O, P>::K(this),
                Err(back) => !(self@ is K) && back == self,
            },
    {
        if self.is_k() {
            proof {
                use_type_invariant(&self);
            }
            let this = ManuallyDrop::new(self);
            Ok(restore::<K>(unset_tag(this.raw, MASK_16, TAG_K)))
        } else {
            Err(self)
        }
    }

    /// Run a closure with this variant.
    pub fn with_k<R, Func: FnOnce(&K) -> R>(&self, func: Func) -> (r: Option<R>)
        requires
            self@ matches Enum16::K(this) ==> func.requires((&this,)),
        ensures
            match r {
                Some(x) => self@ matches Enum16::K(this) && func.ensures((&this,), x),
                None => !(self@ is K),
            },
    {
        if self.is_k() {
            proof {
                use_type_invariant(self);
            }
            Some(with_erased::<K, R, Func>(unset_tag(self.raw, MASK_16, TAG_K), func))
        } else {
            None
        }
    }

    /// Clone this variant out of the union.
    pub fn clone_k(&self) -> (r: Option<K>) where K: Clone
        ensures
            match r {
                Some(twin) => self@ matches Enum16::K(this) && cloned::<K>(this, twin),
                None => !(self@ is K),
            },
    {
        if self.is_k() {
            proof {
                use_type_invariant(self);
            }
            Some(clone_erased::<K>(unset_tag(self.raw, MASK_16, TAG_K)))
        } else {
            None
        }
    }

    /// Copy this variant out of the union.
    pub fn copy_k(&self) -> (r: Option<K>) where K: Copy
        ensures
            match r {
                Some(twin) => self@ == Enum16::<A, B, C, D, E, F, G, H, I, J, K, L, M, N, O, P>::K(twin),
                None => !(self@ is K),
            },
    {
        if self.is_k() {
            proof {
                use_type_invariant(self);
            }
            Some(copy_erased::<K>(unset_tag(self.raw, MASK_16, TAG_K)))
        } else {
            None
        }
    }

    /// Construct a variant of this union with a dynamic alignment check.
    ///
    /// Returns the pointer on error.
    pub fn new_l(l: L) -> (r: Result<Self, L>)
        ensures
            l.erased() is Some,
            r is Ok <==> l.erased().unwrap() % 16 == 0,
            r is Ok <==> is_clean(l, MASK_16),
            match r {
                Ok(made) => made@ == Enum16::<A, B, C, D, E, F, G, H, I, J, K, L, M, N, O, P>::L(l)
                    && packed16(Enum16::<A, B, C, D, E, F, G, H, I, J, K, L, M, N, O, P>::L(l)) == Some(made.word()),
                Err(back) => back == l,
            },
    {
        let word = L::erase(l);
        proof {
            use_type_invariant(&word);
            word.lemma_non_null();
            lemma_tags_fit();
            lemma_clean_is_multiple(word@);
        }
        if check_tag(word, MASK_16, 0) {
            proof {
                lemma_unpack_packed16(Enum16::<A, B, C, D, E, F, G, H, I, J, K, L, M, N, O, P>::L(l));
            }
            Ok(Union16 { raw: set_tag(word, MASK_16, TAG_L), phantom: PhantomData })
        } else {
            proof {
                lemma_unerased(l, word@);
            }
            Err(restore::<L>(word))
        }
    }

    /// Check if the union is this variant.
    pub fn is_l(&self) -> (r: bool)
        ensures
            r == (self@ is L),
            r == (tag_of(self.word(), MASK_16) == TAG_L),
    {
        proof {
            use_type_invariant(self);
        }
        check_tag(self.raw, MASK_16, TAG_L)
    }

    /// Extract this variant from the union.
    ///
    /// Returns the union on error.
    pub fn into_l(self) -> (r: Result<L, Self>)
        ensures
            match r {
                Ok(this) => self@ == Enum16::<A, B, C, D, E, F, G, H, I, J, K, L, M, N, O, P>::L(this),
                Err(back) => !(self@ is L) && back == self,
            },
    {
        if self.is_l() {
            proof {
                use_type_invariant(&self);
            }
            let this = ManuallyDrop::new(self);
            Ok(restore::<L>(unset_tag(this.raw, MASK_16, TAG_L)))
        } else {
            Err(self)
        }
    }

    /// Run a closure with this variant.
    pub fn with_l<R, Func: FnOnce(&L) -> R>(&self, func: Func) -> (r: Option<R>)
        requires
            self@ matches Enum16::L(this) ==> func.requires((&this,)),
        ensures
            match r {
                Some(x) => self@ matches Enum16::L(this) && func.ensures((&this,), x),
                None => !(self@ is L),
            },
    {
        if self.is_l() {
            proof {
                use_type_invariant(self);
            }
            Some(with_erased::<L, R, Func>(unset_tag(self.raw, MASK_16, TAG_L), func))
        } else {
            None
        }
    }

    /// Clone this variant out of the union.
    pub fn clone_l(&self) -> (r: Option<L>) where L: Clone
        ensures
            match r {
                Some(twin) => self@ matches Enum16::L(this) && cloned::<L>(this, twin),
                None => !(self@ is L),
            },
    {
        if self.is_l() {
            proof {
                use_type_invariant(self);
            }
            Some(clone_erased::<L>(unset_tag(self.raw, MASK_16, TAG_L)))
        } else {
            None
        }
    }

    /// Copy this variant out of the union.
    pub fn copy_l(&self) -> (r: Option<L>) where L: Copy
        ensures
            match r {
                Some(twin) => self@ == Enum16::<A, B, C, D, E, F, G, H, I, J, K, L, M, N, O, P>::L(twin),
                None => !(self@ is L),
            },
    {
        if self.is_l() {
            proof {
                use_type_invariant(self);
            }
            Some(copy_erased::<L>(unset_tag(self.raw, MASK_16, TAG_L)))
        } else {
            None
        }
    }

    /// Construct a variant of this union with a dynamic alignment check.
    ///
    /// Returns the pointer on error.
    pub fn new_m(m: M) -> (r: Result<Self, M>)
        ensures
            m.erased() is Some,
            r is Ok <==> m.erased().unwrap() % 16 == 0,
            r is Ok <==> is_clean(m, MASK_16),
            match r {
                Ok(made) => made@ == Enum16::<A, B, C, D, E, F, G, H, I, J, K, L, M, N, O, P>::M(m)
                    && packed16(Enum16::<A, B, C, D, E, F, G, H, I, J, K, L, M, N, O, P>::M(m)) == Some(made.word()),
                Err(back) => back == m,
            },
    {
        let word = M::erase(m);
        proof {
            use_type_invariant(&word);
            word.lemma_non_null();
            lemma_tags_fit();
            lemma_clean_is_multiple(word@);
        }
        if check_tag(word, MASK_16, 0) {
            proof {
                lemma_unpack_packed16(Enum16::<A, B, C, D, E, F, G, H, I, J, K, L, M, N, O, P>::M(m));
            }
            Ok(Union16 { raw: set_tag(word, MASK_16, TAG_M), phantom: PhantomData })
        } else {
            proof {
                lemma_unerased(m, word@);
            }
            Err(restore::<M>(word))
        }
    }

    /// Check if the union is this variant.
    pub fn is_m(&self) -> (r: bool)
        ensures
            r == (self@ is M),
            r == (tag_of(self.word(), MASK_16) == TAG_M),
    {
        proof {
            use_type_invariant(self);
        }
        check_tag(self.raw, MASK_16, TAG_M)
    }

    /// Extract this variant from the union.
    ///
    /// Returns the union on error.
    pub fn into_m(self) -> (r: Result<M, Self>)
        ensures
            match r {
                Ok(this) => self@ == Enum16::<A, B, C, D, E, F, G, H, I, J, K, L, M, N, O, P>::M(this),
                Err(back) => !(self@ is M) && back == self,
            },
    {
        if self.is_m() {
            proof {
                use_type_invariant(&self);
            }
            let this = ManuallyDrop::new(self);
            Ok(restore::<M>(unset_tag(this.raw, MASK_16, TAG_M)))
        } else {
            Err(self)
        }
    }

    /// Run a closure with this variant.
    pub fn with_m<R, Func: FnOnce(&M) -> R>(&self, func: Func) -> (r: Option<R>)
        requires
            self@ matches Enum16::M(this) ==> func.requires((&this,)),
        ensures
            match r {
                Some(x) => self@ matches Enum16::M(this) && func.ensures((&this,), x),
                None => !(self@ is M),
            },
    {
        if self.is_m() {
            proof {
                use_type_invariant(self);
            }
            Some(with_erased::<M, R, Func>(unset_tag(self.raw, MASK_16, TAG_M), func))
        } else {
            None
        }
    }

    /// Clone this variant out of the union.
    pub fn clone_m(&self) -> (r: Option<M>) where M: Clone
        ensures
            match r {
                Some(twin) => self@ matches Enum16::M(this) && cloned::<M>(this, twin),
                None => !(self@ is M),
            },
    {
        if self.is_m() {
            proof {
                use_type_invariant(self);
            }
            Some(clone_erased::<M>(unset_tag(self.raw, MASK_16, TAG_M)))
        } else {
            None
        }
    }

    /// Copy this variant out of the union.
    pub fn copy_m(&self) -> (r: Option<M>) where M: Copy
        ensures
            match r {
                Some(twin) => self@ == Enum16::<A, B, C, D, E, F, G, H, I, J, K, L, M, N, O, P>::M(twin),
                None => !(self@ is M),
            },
    {
        if self.is_m() {
            proof {
                use_type_invariant(self);
            }
            Some(copy_erased::<M>(unset_tag(self.raw, MASK_16, TAG_M)))
        } else {
            None
        }
    }

    /// Construct a variant of this union with a dynamic alignment check.
    ///
    /// Returns the pointer on error.
    pub fn new_n(n: N) -> (r: Result<Self, N>)
        ensures
            n.erased() is Some,
            r is Ok <==> n.erased().unwrap() % 16 == 0,
            r is Ok <==> is_clean(n, MASK_16),
            match r {
                Ok(made) => made@ == Enum16::<A, B, C, D, E, F, G, H, I, J, K, L, M, N, O, P>::N(n)
                    && packed16(Enum16::<A, B, C, D, E, F, G, H, I, J, K, L, M, N, O, P>::N(n)) == Some(made.word()),
                Err(back) => back == n,
            },
    {
        let word = N::erase(n);
        proof {
            use_type_invariant(&word);
            word.lemma_non_null();
            lemma_tags_fit();
            lemma_clean_is_multiple(word@);
        }
        if check_tag(word, MASK_16, 0) {
            proof {
                lemma_unpack_packed16(Enum16::<A, B, C, D, E, F, G, H, I, J, K, L, M, N, O, P>::N(n));
            }
            Ok(Union16 { raw: set_tag(word, MASK_16, TAG_N), phantom: PhantomData })
        } else {
            proof {
                lemma_unerased(n, word@);
            }
            Err(restore::<N>(word))
        }
    }

    /// Check if the union is this variant.
    pub fn is_n(&self) -> (r: bool)
        ensures
            r == (self@ is N),
            r == (tag_of(self.word(), MASK_16) == TAG_N),
    {
        proof {
            use_type_invariant(self);
        }
        check_tag(self.raw, MASK_16, TAG_N)
    }

    /// Extract this variant from the union.
    ///
    /// Returns the union on error.
    pub fn into_n(self) -> (r: Result<N, Self>)
        ensures
            match r {
                Ok(this) => self@ == Enum16::<A, B, C, D, E, F, G, H, I, J, K, L, M, N, O, P>::N(this),
                Err(back) => !(self@ is N) && back == self,
            },
    {
        if self.is_n() {
            proof {
                use_type_invariant(&self);
            }
            let this = ManuallyDrop::new(self);
            Ok(restore::<N>(unset_tag(this.raw, MASK_16, TAG_N)))
        } else {
            Err(self)
        }
    }

    /// Run a closure with this variant.
    pub fn with_n<R, Func: FnOnce(&N) -> R>(&self, func: Func) -> (r: Option<R>)
        requires
            self@ matches Enum16::N(this) ==> func.requires((&this,)),
        ensures
            match r {
                Some(x) => self@ matches Enum16::N(this) && func.ensures((&this,), x),
                None => !(self@ is N),
            },
    {
        if self.is_n() {
            proof {
                use_type_invariant(self);
            }
            Some(with_erased::<N, R, Func>(unset_tag(self.raw, MASK_16, TAG_N), func))
        } else {
            None
        }
    }

    /// Clone this variant out of the union.
    pub fn clone_n(&self) -> (r: Option<N>) where N: Clone
        ensures
            match r {
                Some(twin) => self@ matches Enum16::N(this) && cloned::<N>(this, twin),
                None => !(self@ is N),
            },
    {
        if self.is_n() {
            proof {
                use_type_invariant(self);
            }
            Some(clone_erased::<N>(unset_tag(self.raw, MASK_16, TAG_N)))
        } else {
            None
        }
    }

    /// Copy this variant out of the union.
    pub fn copy_n(&self) -> (r: Option<N>) where N: Copy
        ensures
            match r {
                Some(twin) => self@ == Enum16::<A, B, C, D, E, F, G, H, I, J, K, L, M, N, O, P>::N(twin),
                None => !(self@ is N),
            },
    {
        if self.is_n() {
            proof {
                use_type_invariant(self);
            }
            Some(copy_erased::<N>(unset_tag(self.raw, MASK_16, TAG_N)))
        } else {
            None
        }
    }

    /// Construct a variant of this union with a dynamic alignment check.
    ///
    /// Returns the pointer on error.
    pub fn new_o(o: O) -> (r: Result<Self, O>)
        ensures
            o.erased() is Some,
            r is Ok <==> o.erased().unwrap() % 16 == 0,
            r is Ok <==> is_clean(o, MASK_16),
            match r {
                Ok(made) => made@ == Enum16::<A, B, C, D, E, F, G, H, I, J, K, L, M, N, O, P>::O(o)
                    && packed16(Enum16::<A, B, C, D, E, F, G, H, I, J, K, L, M, N, O, P>::O(o)) == Some(made.word()),
                Err(back) => back == o,
            },
    {
        let word = O::erase(o);
        proof {
            use_type_invariant(&word);
            word.lemma_non_null();
            lemma_tags_fit();
            lemma_clean_is_multiple(word@);
        }
        if check_tag(word, MASK_16, 0) {
            proof {
                lemma_unpack_packed16(Enum16::<A, B, C, D, E, F, G, H, I, J, K, L, M, N, O, P>::O(o));
            }
            Ok(Union16 { raw: set_tag(word, MASK_16, TAG_O), phantom: PhantomData })
        } else {
            proof {
                lemma_unerased(o, word@);
            }
            Err(restore::<O>(word))
        }
    }

    /// Check if the union is this variant.
    pub fn is_o(&self) -> (r: bool)
        ensures
            r == (self@ is O),
            r == (tag_of(self.word(), MASK_16) == TAG_O),
    {
        proof {
            use_type_invariant(self);
        }
        check_tag(self.raw, MASK_16, TAG_O)
    }

    /// Extract this variant from the union.
    ///
    /// Returns the union on error.
    pub fn into_o(self) -> (r: Result<O, Self>)
        ensures
            match r {
                Ok(this) => self@ == Enum16::<A, B, C, D, E, F, G, H, I, J, K, L, M, N, O, P>::O(this),
                Err(back) => !(self@ is O) && back == self,
            },
    {
        if self.is_o() {
            proof {
                use_type_invariant(&self);
            }
            let this = ManuallyDrop::new(self);
            Ok(restore::<O>(unset_tag(this.raw, MASK_16, TAG_O)))
        } else {
            Err(self)
        }
    }

    /// Run a closure with this variant.
    pub fn with_o<R, Func: FnOnce(&O) -> R>(&self, func: Func) -> (r: Option<R>)
        requires
            self@ matches Enum16::O(this) ==> func.requires((&this,)),
        ensures
            match r {
                Some(x) => self@ matches Enum16::O(this) && func.ensures((&this,), x),
                None => !(self@ is O),
            },
    {
        if self.is_o() {
            proof {
                use_type_invariant(self);
            }
            Some(with_erased::<O, R, Func>(unset_tag(self.raw, MASK_16, TAG_O), func))
        } else {
            None
        }
    }

    /// Clone this variant out of the union.
    pub fn clone_o(&self) -> (r: Option<O>) where O: Clone
        ensures
            match r {
                Some(twin) => self@ matches Enum16::O(this) && cloned::<O>(this, twin),
                None => !(self@ is O),
            },
    {
        if self.is_o() {
            proof {
                use_type_invariant(self);
            }
            Some(clone_erased::<O>(unset_tag(self.raw, MASK_16, TAG_O)))
        } else {
            None
        }
    }

    /// Copy this variant out of the union.
    pub fn copy_o(&self) -> (r: Option<O>) where O: Copy
        ensures
            match r {
                Some(twin) => self@ == Enum16::<A, B, C, D, E, F, G, H, I, J, K, L, M, N, O, P>::O(twin),
                None => !(self@ is O),
            },
    {
        if self.is_o() {
            proof {
                use_type_invariant(self);
            }
            Some(copy_erased::<O>(unset_tag(self.raw, MASK_16, TAG_O)))
        } else {
            None
        }
    }

    /// Construct a variant of this union with a dynamic alignment check.
    ///
    /// Returns the pointer on error.
    pub fn new_p(p: P) -> (r: Result<Self, P>)
        ensures
            p.erased() is Some,
            r is Ok <==> p.erased().unwrap() % 16 == 0,
            r is Ok <==> is_clean(p, MASK_16),
            match r {
                Ok(made) => made@ == Enum16::<A, B, C, D, E, F, G, H, I, J, K, L, M, N, O, P>::P(p)
                    && packed16(Enum16::<A, B, C, D, E, F, G, H, I, J, K, L, M, N, O, P>::P(p)) == Some(made.word()),
                Err(back) => back == p,
            },
    {
        let word = P::erase(p);
        proof {
            use_type_invariant(&word);
            word.lemma_non_null();
            lemma_tags_fit();
            lemma_clean_is_multiple(word@);
        }
        if check_tag(word, MASK_16, 0) {
            proof {
                lemma_unpack_packed16(Enum16::<A, B, C, D, E, F, G, H, I, J, K, L, M, N, O, P>::P(p));
            }
            Ok(Union16 { raw: set_tag(word, MASK_16, TAG_P), phantom: PhantomData })
        } else {
            proof {
                lemma_unerased(p, word@);
            }
            Err(restore::<P>(word))
        }
    }

    /// Check if the union is this variant.
    pub fn is_p(&self) -> (r: bool)
        ensures
            r == (self@ is P),
            r == (tag_of(self.word(), MASK_16) == TAG_P),
    {
        proof {
            use_type_invariant(self);
        }
        check_tag(self.raw, MASK_16, TAG_P)
    }

    /// Extract this variant from the union.
    ///
    /// Returns the union on error.
    pub fn into_p(self) -> (r: Result<P, Self>)
        ensures
            match r {
                Ok(this) => self@ == Enum16::<A, B, C, D, E, F, G, H, I, J, K, L, M, N, O, P>::P(this),
                Err(back) => !(self@ is P) && back == self,
            },
    {
        if self.is_p() {
            proof {
                use_type_invariant(&self);
            }
            let this = ManuallyDrop::new(self);
            Ok(restore::<P>(unset_tag(this.raw, MASK_16, TAG_P)))
        } else {
            Err(self)
        }
    }

    /// Run a closure with this variant.
    pub fn with_p<R, Func: FnOnce(&P) -> R>(&self, func: Func) -> (r: Option<R>)
        requires
            self@ matches Enum16::P(this) ==> func.requires((&this,)),
        ensures
            match r {
                Some(x) => self@ matches Enum16::P(this) && func.ensures((&this,), x),
                None => !(self@ is P),
            },
    {
        if self.is_p() {
            proof {
                use_type_invariant(self);
            }
            Some(with_erased::<P, R, Func>(unset_tag(self.raw, MASK_16, TAG_P), func))
        } else {
            None
        }
    }

    /// Clone this variant out of the union.
    pub fn clone_p(&self) -> (r: Option<P>) where P: Clone
        ensures
            match r {
                Some(twin) => self@ matches Enum16::P(this) && cloned::<P>(this, twin),
                None => !(self@ is P),
            },
    {
        if self.is_p() {
            proof {
                use_type_invariant(self);
            }
            Some(clone_erased::<P>(unset_tag(self.raw, MASK_16, TAG_P)))
        } else {
            None
        }
    }

    /// Copy this variant out of the union.
    pub fn copy_p(&self) -> (r: Option<P>) where P: Copy
        ensures
            match r {
                Some(twin) => self@ == Enum16::<A, B, C, D, E, F, G, H, I, J, K, L, M, N, O, P>::P(twin),
                None => !(self@ is P),
            },
    {
        if self.is_p() {
            proof {
                use_type_invariant(self);
            }
            Some(copy_erased::<P>(unset_tag(self.raw, MASK_16, TAG_P)))
        } else {
            None
        }
    }

    /// Unpack this union into an enum.
    pub fn unpack(self) -> (r: Enum16<A, B, C, D, E, F, G, H, I, J, K, L, M, N, O, P>)
        ensures
            r == self@,
            packed16(r) == Some(self.word()),
    {
        proof {
            use_type_invariant(&self);
            lemma_pack_unpacked16::<A, B, C, D, E, F, G, H, I, J, K, L, M, N, O, P>(self.word());
        }
        let this = ManuallyDrop::new(self);
        let raw = this.raw;
        if check_tag(raw, MASK_16, TAG_A) {
            Enum16::A(restore::<A>(unset_tag(raw, MASK_16, TAG_A)))
        } else if check_tag(raw, MASK_16, TAG_B) {
            Enum16::B(restore::<B>(unset_tag(raw, MASK_16, TAG_B)))
        } else if check_tag(raw, MASK_16, TAG_C) {
            Enum16::C(restore::<C>(unset_tag(raw, MASK_16, TAG_C)))
        } else if check_tag(raw, MASK_16, TAG_D) {
            Enum16::D(restore::<D>(unset_tag(raw, MASK_16, TAG_D)))
        } else if check_tag(raw, MASK_16, TAG_E) {
            Enum16::E(restore::<E>(unset_tag(raw, MASK_16, TAG_E)))
        } else if check_tag(raw, MASK_16, TAG_F) {
            Enum16::F(restore::<F>(unset_tag(raw, MASK_16, TAG_F)))
        } else if check_tag(raw, MASK_16, TAG_G) {
            Enum16::G(restore::<G>(unset_tag(raw, MASK_16, TAG_G)))
        } else if check_tag(raw, MASK_16, TAG_H) {
            Enum16::H(restore::<H>(unset_tag(raw, MASK_16, TAG_H)))
        } else if check_tag(raw, MASK_16, TAG_I) {
            Enum16::I(restore::<I>(unset_tag(raw, MASK_16, TAG_I)))
        } else if check_tag(raw, MASK_16, TAG_J) {
            Enum16::J(restore::<J>(unset_tag(raw, MASK_16, TAG_J)))
        } else if check_tag(raw, MASK_16, TAG_K) {
            Enum16::K(restore::<K>(unset_tag(raw, MASK_16, TAG_K)))
        } else if check_tag(raw, MASK_16, TAG_L) {
            Enum16::L(restore::<L>(unset_tag(raw, MASK_16, TAG_L)))
        } else if check_tag(raw, MASK_16, TAG_M) {
            Enum16::M(restore::<M>(unset_tag(raw, MASK_16, TAG_M)))
        } else if check_tag(raw, MASK_16, TAG_N) {
            Enum16::N(restore::<N>(unset_tag(raw, MASK_16, TAG_N)))
        } else if check_tag(raw, MASK_16, TAG_O) {
            Enum16::O(restore::<O>(unset_tag(raw, MASK_16, TAG_O)))
        } else {
            Enum16::P(restore::<P>(unset_tag(raw, MASK_16, TAG_P)))
        }
    }

    /// Check if two unions are the same variant and point to the same value
    /// (not that the values compare as equal).
    pub fn ptr_eq(&self, other: &Self) -> (r: bool)
        ensures
            r == self.same_pointer(*other),
            r == (self@ == other@),
    {
        proof {
            use_type_invariant(self);
            use_type_invariant(other);
            lemma_same_word_same_pointer16::<A, B, C, D, E, F, G, H, I, J, K, L, M, N, O, P>(self.word(), other.word());
        }
        self.raw.addr() == other.raw.addr()
    }

    /// Get the raw type-erased untagged pointer to the payload.
    pub fn as_untagged_ptr(&self) -> (r: ErasedPtr)
        ensures
            r@ == untagged(self.word(), MASK_16),
            match self@ {
                Enum16::A(a) => a.erased() == Some(r@),
                Enum16::B(b) => b.erased() == Some(r@),
                Enum16::C(c) => c.erased() == Some(r@),
                Enum16::D(d) => d.erased() == Some(r@),
                Enum16::E(e) => e.erased() == Some(r@),
                Enum16::F(f) => f.erased() == Some(r@),
                Enum16::G(g) => g.erased() == Some(r@),
                Enum16::H(h) => h.erased() == Some(r@),
                Enum16::I(i) => i.erased() == Some(r@),
                Enum16::J(j) => j.erased() == Some(r@),
                Enum16::K(k) => k.erased() == Some(r@),
                Enum16::L(l) => l.erased() == Some(r@),
                Enum16::M(m) => m.erased() == Some(r@),
                Enum16::N(n) => n.erased() == Some(r@),
                Enum16::O(o) => o.erased() == Some(r@),
                Enum16::P(p) => p.erased() == Some(r@),
            },
    {
        proof {
            use_type_invariant(self);
        }
        unset_any_tag(self.raw, MASK_16)
    }
}

impl<
    A: ErasablePtr + Clone,
    B: ErasablePtr + Clone,
    C: ErasablePtr + Clone,
    D: ErasablePtr + Clone,
    E: ErasablePtr + Clone,
    F: ErasablePtr + Clone,
    G: ErasablePtr + Clone,
    H: ErasablePtr + Clone,
    I: ErasablePtr + Clone,
    J: ErasablePtr + Clone,
    K: ErasablePtr + Clone,
    L: ErasablePtr + Clone,
    M: ErasablePtr + Clone,
    N: ErasablePtr + Clone,
    O: ErasablePtr + Clone,
    P: ErasablePtr + Clone,
> Union16<A, B, C, D, E, F, G, H, I, J, K, L, M, N, O, P> {
    /// Whether whatever a clone of the pointer in this union may be, it
    /// erases to an address that leaves room for the tag.
    pub open spec fn clones_fit(self) -> bool {
        match self@ {
            Enum16::A(this) => forall|twin: A| cloned::<A>(this, twin) ==> is_clean(twin, MASK_16),
            Enum16::B(this) => forall|twin: B| cloned::<B>(this, twin) ==> is_clean(twin, MASK_16),
            Enum16::C(this) => forall|twin: C| cloned::<C>(this, twin) ==> is_clean(twin, MASK_16),
            Enum16::D(this) => forall|twin: D| cloned::<D>(this, twin) ==> is_clean(twin, MASK_16),
            Enum16::E(this) => forall|twin: E| cloned::<E>(this, twin) ==> is_clean(twin, MASK_16),
            Enum16::F(this) => forall|twin: F| cloned::<F>(this, twin) ==> is_clean(twin, MASK_16),
            Enum16::G(this) => forall|twin: G| cloned::<G>(this, twin) ==> is_clean(twin, MASK_16),
            Enum16::H(this) => forall|twin: H| cloned::<H>(this, twin) ==> is_clean(twin, MASK_16),
            Enum16::I(this) => forall|twin: I| cloned::<I>(this, twin) ==> is_clean(twin, MASK_16),
            Enum16::J(this) => forall|twin: J| cloned::<J>(this, twin) ==> is_clean(twin, MASK_16),
            Enum16::K(this) => forall|twin: K| cloned::<K>(this, twin) ==> is_clean(twin, MASK_16),
            Enum16::L(this) => forall|twin: L| cloned::<L>(this, twin) ==> is_clean(twin, MASK_16),
            Enum16::M(this) => forall|twin: M| cloned::<M>(this, twin) ==> is_clean(twin, MASK_16),
            Enum16::N(this) => forall|twin: N| cloned::<N>(this, twin) ==> is_clean(twin, MASK_16),
            Enum16::O(this) => forall|twin: O| cloned::<O>(this, twin) ==> is_clean(twin, MASK_16),
            Enum16::P(this) => forall|twin: P| cloned::<P>(this, twin) ==> is_clean(twin, MASK_16),
        }
    }

    /// Whether `other` holds a clone of the pointer in this union, in the
    /// same variant.
    pub open spec fn is_cloned_by(self, other: Self) -> bool {
        match self@ {
            Enum16::A(this) => other@ matches Enum16::A(twin) && cloned::<A>(this, twin),
            Enum16::B(this) => other@ matches Enum16::B(twin) && cloned::<B>(this, twin),
            Enum16::C(this) => other@ matches Enum16::C(twin) && cloned::<C>(this, twin),
            Enum16::D(this) => other@ matches Enum16::D(twin) && cloned::<D>(this, twin),
            Enum16::E(this) => other@ matches Enum16::E(twin) && cloned::<E>(this, twin),
            Enum16::F(this) => other@ matches Enum16::F(twin) && cloned::<F>(this, twin),
            Enum16::G(this) => other@ matches Enum16::G(twin) && cloned::<G>(this, twin),
            Enum16::H(this) => other@ matches Enum16::H(twin) && cloned::<H>(this, twin),
            Enum16::I(this) => other@ matches Enum16::I(twin) && cloned::<I>(this, twin),
            Enum16::J(this) => other@ matches Enum16::J(twin) && cloned::<J>(this, twin),
            Enum16::K(this) => other@ matches Enum16::K(twin) && cloned::<K>(this, twin),
            Enum16::L(this) => other@ matches Enum16::L(twin) && cloned::<L>(this, twin),
            Enum16::M(this) => other@ matches Enum16::M(twin) && cloned::<M>(this, twin),
            Enum16::N(this) => other@ matches Enum16::N(twin) && cloned::<N>(this, twin),
            Enum16::O(this) => other@ matches Enum16::O(twin) && cloned::<O>(this, twin),
            Enum16::P(this) => other@ matches Enum16::P(twin) && cloned::<P>(this, twin),
        }
    }

    /// Clone the pointer in this union into a union of its own.
    ///
    /// The clone must be aligned as the union requires, which holds where
    /// the pointer types are safe to build a union from. Where that is not
    /// known, use `try_clone`.
    pub fn clone(&self) -> (r: Self)
        requires
            self.clones_fit(),
        ensures
            self.is_cloned_by(r),
    {
        proof {
            use_type_invariant(self);
        }
        if check_tag(self.raw, MASK_16, TAG_A) {
            let twin = clone_erased::<A>(unset_tag(self.raw, MASK_16, TAG_A));
            Enum16::<A, B, C, D, E, F, G, H, I, J, K, L, M, N, O, P>::A(twin).pack_unchecked()
        } else if check_tag(self.raw, MASK_16, TAG_B) {
            let twin = clone_erased::<B>(unset_tag(self.raw, MASK_16, TAG_B));
            Enum16::<A, B, C, D, E, F, G, H, I, J, K, L, M, N, O, P>::B(twin).pack_unchecked()
        } else if check_tag(self.raw, MASK_16, TAG_C) {
            let twin = clone_erased::<C>(unset_tag(self.raw, MASK_16, TAG_C));
            Enum16::<A, B, C, D, E, F, G, H, I, J, K, L, M, N, O, P>::C(twin).pack_unchecked()
        } else if check_tag(self.raw, MASK_16, TAG_D) {
            let twin = clone_erased::<D>(unset_tag(self.raw, MASK_16, TAG_D));
            Enum16::<A, B, C, D, E, F, G, H, I, J, K, L, M, N, O, P>::D(twin).pack_unchecked()
        } else if check_tag(self.raw, MASK_16, TAG_E) {
            let twin = clone_erased::<E>(unset_tag(self.raw, MASK_16, TAG_E));
            Enum16::<A, B, C, D, E, F, G, H, I, J, K, L, M, N, O, P>::E(twin).pack_unchecked()
        } else if check_tag(self.raw, MASK_16, TAG_F) {
            let twin = clone_erased::<F>(unset_tag(self.raw, MASK_16, TAG_F));
            Enum16::<A, B, C, D, E, F, G, H, I, J, K, L, M, N, O, P>::F(twin).pack_unchecked()
        } else if check_tag(self.raw, MASK_16, TAG_G) {
            let twin = clone_erased::<G>(unset_tag(self.raw, MASK_16, TAG_G));
            Enum16::<A, B, C, D, E, F, G, H, I, J, K, L, M, N, O, P>::G(twin).pack_unchecked()
        } else if check_tag(self.raw, MASK_16, TAG_H) {
            let twin = clone_erased::<H>(unset_tag(self.raw, MASK_16, TAG_H));
            Enum16::<A, B, C, D, E, F, G, H, I, J, K, L, M, N, O, P>::H(twin).pack_unchecked()
        } else if check_tag(self.raw, MASK_16, TAG_I) {
            let twin = clone_erased::<I>(unset_tag(self.raw, MASK_16, TAG_I));
            Enum16::<A, B, C, D, E, F, G, H, I, J, K, L, M, N, O, P>::I(twin).pack_unchecked()
        } else if check_tag(self.raw, MASK_16, TAG_J) {
            let twin = clone_erased::<J>(unset_tag(self.raw, MASK_16, TAG_J));
            Enum16::<A, B, C, D, E, F, G, H, I, J, K, L, M, N, O, P>::J(twin).pack_unchecked()
        } else if check_tag(self.raw, MASK_16, TAG_K) {
            let twin = clone_erased::<K>(unset_tag(self.raw, MASK_16, TAG_K));
            Enum16::<A, B, C, D, E, F, G, H, I, J, K, L, M, N, O, P>::K(twin).pack_unchecked()
        } else if check_tag(self.raw, MASK_16, TAG_L) {
            let twin = clone_erased::<L>(unset_tag(self.raw, MASK_16, TAG_L));
            Enum16::<A, B, C, D, E, F, G, H, I, J, K, L, M, N, O, P>::L(twin).pack_unchecked()
        } else if check_tag(self.raw, MASK_16, TAG_M) {
            let twin = clone_erased::<M>(unset_tag(self.raw, MASK_16, TAG_M));
            Enum16::<A, B, C, D, E, F, G, H, I, J, K, L, M, N, O, P>::M(twin).pack_unchecked()
        } else if check_tag(self.raw, MASK_16, TAG_N) {
            let twin = clone_erased::<N>(unset_tag(self.raw, MASK_16, TAG_N));
            Enum16::<A, B, C, D, E, F, G, H, I, J, K, L, M, N, O, P>::N(twin).pack_unchecked()
        } else if check_tag(self.raw, MASK_16, TAG_O) {
            let twin = clone_erased::<O>(unset_tag(self.raw, MASK_16, TAG_O));
            Enum16::<A, B, C, D, E, F, G, H, I, J, K, L, M, N, O, P>::O(twin).pack_unchecked()
        } else {
            let twin = clone_erased::<P>(unset_tag(self.raw, MASK_16, TAG_P));
            Enum16::<A, B, C, D, E, F, G, H, I, J, K, L, M, N, O, P>::P(twin).pack_unchecked()
        }
    }

    /// Clone the pointer in this union into a union of its own, with a
    /// dynamic alignment check on the clone.
    ///
    /// Returns `None`, and drops the clone, where the clone is not aligned
    /// as the union requires.
    pub fn try_clone(&self) -> (r: Option<Self>)
        ensures
            match r {
                Some(made) => self.is_cloned_by(made),
                None => !self.clones_fit(),
            },
    {
        proof {
            use_type_invariant(self);
        }
        if check_tag(self.raw, MASK_16, TAG_A) {
            let twin = clone_erased::<A>(unset_tag(self.raw, MASK_16, TAG_A));
            match Union16::new_a(twin) {
                Ok(made) => Some(made),
                Err(_) => None,
            }
        } else if check_tag(self.raw, MASK_16, TAG_B) {
            let twin = clone_erased::<B>(unset_tag(self.raw, MASK_16, TAG_B));
            match Union16::new_b(twin) {
                Ok(made) => Some(made),
                Err(_) => None,
            }
        } else if check_tag(self.raw, MASK_16, TAG_C) {
            let twin = clone_erased::<C>(unset_tag(self.raw, MASK_16, TAG_C));
            match Union16::new_c(twin) {
                Ok(made) => Some(made),
                Err(_) => None,
            }
        } else if check_tag(self.raw, MASK_16, TAG_D) {
            let twin = clone_erased::<D>(unset_tag(self.raw, MASK_16, TAG_D));
            match Union16::new_d(twin) {
                Ok(made) => Some(made),
                Err(_) => None,
            }
        } else if check_tag(self.raw, MASK_16, TAG_E) {
            let twin = clone_erased::<E>(unset_tag(self.raw, MASK_16, TAG_E));
            match Union16::new_e(twin) {
                Ok(made) => Some(made),
                Err(_) => None,
            }
        } else if check_tag(self.raw, MASK_16, TAG_F) {
            let twin = clone_erased::<F>(unset_tag(self.raw, MASK_16, TAG_F));
            match Union16::new_f(twin) {
                Ok(made) => Some(made),
                Err(_) => None,
            }
        } else if check_tag(self.raw, MASK_16, TAG_G) {
            let twin = clone_erased::<G>(unset_tag(self.raw, MASK_16, TAG_G));
            match Union16::new_g(twin) {
                Ok(made) => Some(made),
                Err(_) => None,
            }
        } else if check_tag(self.raw, MASK_16, TAG_H) {
            let twin = clone_erased::<H>(unset_tag(self.raw, MASK_16, TAG_H));
            match Union16::new_h(twin) {
                Ok(made) => Some(made),
                Err(_) => None,
            }
        } else if check_tag(self.raw, MASK_16, TAG_I) {
            let twin = clone_erased::<I>(unset_tag(self.raw, MASK_16, TAG_I));
            match Union16::new_i(twin) {
                Ok(made) => Some(made),
                Err(_) => None,
            }
        } else if check_tag(self.raw, MASK_16, TAG_J) {
            let twin = clone_erased::<J>(unset_tag(self.raw, MASK_16, TAG_J));
            match Union16::new_j(twin) {
                Ok(made) => Some(made),
                Err(_) => None,
            }
        } else if check_tag(self.raw, MASK_16, TAG_K) {
            let twin = clone_erased::<K>(unset_tag(self.raw, MASK_16, TAG_K));
            match Union16::new_k(twin) {
                Ok(made) => Some(made),
                Err(_) => None,
            }
        } else if check_tag(self.raw, MASK_16, TAG_L) {
            let twin = clone_erased::<L>(unset_tag(self.raw, MASK_16, TAG_L));
            match Union16::new_l(twin) {
                Ok(made) => Some(made),
                Err(_) => None,
            }
        } else if check_tag(self.raw, MASK_16, TAG_M) {
            let twin = clone_erased::<M>(unset_tag(self.raw, MASK_16, TAG_M));
            match Union16::new_m(twin) {
                Ok(made) => Some(made),
                Err(_) => None,
            }
        } else if check_tag(self.raw, MASK_16, TAG_N) {
            let twin = clone_erased::<N>(unset_tag(self.raw, MASK_16, TAG_N));
            match Union16::new_n(twin) {
                Ok(made) => Some(made),
                Err(_) => None,
            }
        } else if check_tag(self.raw, MASK_16, TAG_O) {
            let twin = clone_erased::<O>(unset_tag(self.raw, MASK_16, TAG_O));
            match Union16::new_o(twin) {
                Ok(made) => Some(made),
                Err(_) => None,
            }
        } else {
            let twin = clone_erased::<P>(unset_tag(self.raw, MASK_16, TAG_P));
            match Union16::new_p(twin) {
                Ok(made) => Some(made),
                Err(_) => None,
            }
        }
    }
}

impl<
    A: ErasablePtr,
    B: ErasablePtr,
    C: ErasablePtr,
    D: ErasablePtr,
    E: ErasablePtr,
    F: ErasablePtr,
    G: ErasablePtr,
    H: ErasablePtr,
    I: ErasablePtr,
    J: ErasablePtr,
    K: ErasablePtr,
    L: ErasablePtr,
    M: ErasablePtr,
    N: ErasablePtr,
    O: ErasablePtr,
    P: ErasablePtr,
> ErasablePtr for Union16<A, B, C, D, E, F, G, H, I, J, K, L, M, N, O, P> {
    /// A union erases to its word, tag and all.
    open spec fn erased(self) -> Option<usize> {
        if self.wf() {
            Some(self.word())
        } else {
            None
        }
    }

    proof fn erased_is_injective(a: Self, b: Self) {
        if a.erased() is Some && a.erased() == b.erased() {
            a.lemma_same_word(b);
        }
    }

    /// Gives the word of the union, which keeps what the union owned.
    fn erase(this: Self) -> (word: ErasedPtr)
        ensures
            word@ == this.word(),
    {
        proof {
            use_type_invariant(&this);
        }
        let this = ManuallyDrop::new(this);
        this.raw
    }

    /// Makes a union of its word again.
    fn unerase(word: ErasedPtr) -> (this: Self)
        ensures
            this.word() == word@,
    {
        Union16 { raw: word, phantom: PhantomData }
    }
}

impl<
    A: ErasablePtr,
    B: ErasablePtr,
    C: ErasablePtr,
    D: ErasablePtr,
    E: ErasablePtr,
    F: ErasablePtr,
    G: ErasablePtr,
    H: ErasablePtr,
    I: ErasablePtr,
    J: ErasablePtr,
    K: ErasablePtr,
    L: ErasablePtr,
    M: ErasablePtr,
    N: ErasablePtr,
    O: ErasablePtr,
    P: ErasablePtr,
> Drop for Union16<A, B, C, D, E, F, G, H, I, J, K, L, M, N, O, P> {
    /// Restores the one pointer that the union holds and drops it.
    fn drop(&mut self)
        opens_invariants none
        no_unwind
    {
        proof {
            use_type_invariant(&*self);
        }
        let raw = self.raw;
        if check_tag(raw, MASK_16, TAG_A) {
            let _a: A = unerase_in_drop(unset_tag(raw, MASK_16, TAG_A));
        } else if check_tag(raw, MASK_16, TAG_B) {
            let _b: B = unerase_in_drop(unset_tag(raw, MASK_16, TAG_B));
        } else if check_tag(raw, MASK_16, TAG_C) {
            let _c: C = unerase_in_drop(unset_tag(raw, MASK_16, TAG_C));
        } else if check_tag(raw, MASK_16, TAG_D) {
            let _d: D = unerase_in_drop(unset_tag(raw, MASK_16, TAG_D));
        } else if check_tag(raw, MASK_16, TAG_E) {
            let _e: E = unerase_in_drop(unset_tag(raw, MASK_16, TAG_E));
        } else if check_tag(raw, MASK_16, TAG_F) {
            let _f: F = unerase_in_drop(unset_tag(raw, MASK_16, TAG_F));
        } else if check_tag(raw, MASK_16, TAG_G) {
            let _g: G = unerase_in_drop(unset_tag(raw, MASK_16, TAG_G));
        } else if check_tag(raw, MASK_16, TAG_H) {
            let _h: H = unerase_in_drop(unset_tag(raw, MASK_16, TAG_H));
        } else if check_tag(raw, MASK_16, TAG_I) {
            let _i: I = unerase_in_drop(unset_tag(raw, MASK_16, TAG_I));
        } else if check_tag(raw, MASK_16, TAG_J) {
            let _j: J = unerase_in_drop(unset_tag(raw, MASK_16, TAG_J));
        } else if check_tag(raw, MASK_16, TAG_K) {
            let _k: K = unerase_in_drop(unset_tag(raw, MASK_16, TAG_K));
        } else if check_tag(raw, MASK_16, TAG_L) {
            let _l: L = unerase_in_drop(unset_tag(raw, MASK_16, TAG_L));
        } else if check_tag(raw, MASK_16, TAG_M) {
            let _m: M = unerase_in_drop(unset_tag(raw, MASK_16, TAG_M));
        } else if check_tag(raw, MASK_16, TAG_N) {
            let _n: N = unerase_in_drop(unset_tag(raw, MASK_16, TAG_N));
        } else if check_tag(raw, MASK_16, TAG_O) {
            let _o: O = unerase_in_drop(unset_tag(raw, MASK_16, TAG_O));
        } else {
            let _p: P = unerase_in_drop(unset_tag(raw, MASK_16, TAG_P));
        }
    }
}

impl<
    A: ErasablePtr + PartialEq,
    B: ErasablePtr + PartialEq,
    C: ErasablePtr + PartialEq,
    D: ErasablePtr + PartialEq,
    E: ErasablePtr + PartialEq,
    F: ErasablePtr + PartialEq,
    G: ErasablePtr + PartialEq,
    H: ErasablePtr + PartialEq,
    I: ErasablePtr + PartialEq,
    J: ErasablePtr + PartialEq,
    K: ErasablePtr + PartialEq,
    L: ErasablePtr + PartialEq,
    M: ErasablePtr + PartialEq,
    N: ErasablePtr + PartialEq,
    O: ErasablePtr + PartialEq,
    P: ErasablePtr + PartialEq,
> PartialEq for Union16<A, B, C, D, E, F, G, H, I, J, K, L, M, N, O, P> {
    /// Unions are equal when they are of the same variant and their
    /// pointers are equal by the `==` of that variant's type.
    fn eq(&self, other: &Self) -> (r: bool) {
        proof {
            use_type_invariant(self);
            use_type_invariant(other);
        }
        if check_tag(self.raw, MASK_16, TAG_A) {
            check_tag(other.raw, MASK_16, TAG_A) && eq_erased::<A>(
                unset_tag(self.raw, MASK_16, TAG_A),
                unset_tag(other.raw, MASK_16, TAG_A),
            )
        } else if check_tag(self.raw, MASK_16, TAG_B) {
            check_tag(other.raw, MASK_16, TAG_B) && eq_erased::<B>(
                unset_tag(self.raw, MASK_16, TAG_B),
                unset_tag(other.raw, MASK_16, TAG_B),
            )
        } else if check_tag(self.raw, MASK_16, TAG_C) {
            check_tag(other.raw, MASK_16, TAG_C) && eq_erased::<C>(
                unset_tag(self.raw, MASK_16, TAG_C),
                unset_tag(other.raw, MASK_16, TAG_C),
            )
        } else if check_tag(self.raw, MASK_16, TAG_D) {
            check_tag(other.raw, MASK_16, TAG_D) && eq_erased::<D>(
                unset_tag(self.raw, MASK_16, TAG_D),
                unset_tag(other.raw, MASK_16, TAG_D),
            )
        } else if check_tag(self.raw, MASK_16, TAG_E) {
            check_tag(other.raw, MASK_16, TAG_E) && eq_erased::<E>(
                unset_tag(self.raw, MASK_16, TAG_E),
                unset_tag(other.raw, MASK_16, TAG_E),
            )
        } else if check_tag(self.raw, MASK_16, TAG_F) {
            check_tag(other.raw, MASK_16, TAG_F) && eq_erased::<F>(
                unset_tag(self.raw, MASK_16, TAG_F),
                unset_tag(other.raw, MASK_16, TAG_F),
            )
        } else if check_tag(self.raw, MASK_16, TAG_G) {
            check_tag(other.raw, MASK_16, TAG_G) && eq_erased::<G>(
                unset_tag(self.raw, MASK_16, TAG_G),
                unset_tag(other.raw, MASK_16, TAG_G),
            )
        } else if check_tag(self.raw, MASK_16, TAG_H) {
            check_tag(other.raw, MASK_16, TAG_H) && eq_erased::<H>(
                unset_tag(self.raw, MASK_16, TAG_H),
                unset_tag(other.raw, MASK_16, TAG_H),
            )
        } else if check_tag(self.raw, MASK_16, TAG_I) {
            check_tag(other.raw, MASK_16, TAG_I) && eq_erased::<I>(
                unset_tag(self.raw, MASK_16, TAG_I),
                unset_tag(other.raw, MASK_16, TAG_I),
            )
        } else if check_tag(self.raw, MASK_16, TAG_J) {
            check_tag(other.raw, MASK_16, TAG_J) && eq_erased::<J>(
                unset_tag(self.raw, MASK_16, TAG_J),
                unset_tag(other.raw, MASK_16, TAG_J),
            )
        } else if check_tag(self.raw, MASK_16, TAG_K) {
            check_tag(other.raw, MASK_16, TAG_K) && eq_erased::<K>(
                unset_tag(self.raw, MASK_16, TAG_K),
                unset_tag(other.raw, MASK_16, TAG_K),
            )
        } else if check_tag(self.raw, MASK_16, TAG_L) {
            check_tag(other.raw, MASK_16, TAG_L) && eq_erased::<L>(
                unset_tag(self.raw, MASK_16, TAG_L),
                unset_tag(other.raw, MASK_16, TAG_L),
            )
        } else if check_tag(self.raw, MASK_16, TAG_M) {
            check_tag(other.raw, MASK_16, TAG_M) && eq_erased::<M>(
                unset_tag(self.raw, MASK_16, TAG_M),
                unset_tag(other.raw, MASK_16, TAG_M),
            )
        } else if check_tag(self.raw, MASK_16, TAG_N) {
            check_tag(other.raw, MASK_16, TAG_N) && eq_erased::<N>(
                unset_tag(self.raw, MASK_16, TAG_N),
                unset_tag(other.raw, MASK_16, TAG_N),
            )
        } else if check_tag(self.raw, MASK_16, TAG_O) {
            check_tag(other.raw, MASK_16, TAG_O) && eq_erased::<O>(
                unset_tag(self.raw, MASK_16, TAG_O),
                unset_tag(other.raw, MASK_16, TAG_O),
            )
        } else {
            check_tag(other.raw, MASK_16, TAG_P) && eq_erased::<P>(
                unset_tag(self.raw, MASK_16, TAG_P),
                unset_tag(other.raw, MASK_16, TAG_P),
            )
        }
    }
}

impl<
    A: ErasablePtr + PartialEq,
    B: ErasablePtr + PartialEq,
    C: ErasablePtr + PartialEq,
    D: ErasablePtr + PartialEq,
    E: ErasablePtr + PartialEq,
    F: ErasablePtr + PartialEq,
    G: ErasablePtr + PartialEq,
    H: ErasablePtr + PartialEq,
    I: ErasablePtr + PartialEq,
    J: ErasablePtr + PartialEq,
    K: ErasablePtr + PartialEq,
    L: ErasablePtr + PartialEq,
    M: ErasablePtr + PartialEq,
    N: ErasablePtr + PartialEq,
    O: ErasablePtr + PartialEq,
    P: ErasablePtr + PartialEq,
> PartialEqSpecImpl for Union16<A, B, C, D, E, F, G, H, I, J, K, L, M, N, O, P> {
    open spec fn obeys_eq_spec() -> bool {
        &&& A::obeys_eq_spec()
        &&& B::obeys_eq_spec()
        &&& C::obeys_eq_spec()
        &&& D::obeys_eq_spec()
        &&& E::obeys_eq_spec()
        &&& F::obeys_eq_spec()
        &&& G::obeys_eq_spec()
        &&& H::obeys_eq_spec()
        &&& I::obeys_eq_spec()
        &&& J::obeys_eq_spec()
        &&& K::obeys_eq_spec()
        &&& L::obeys_eq_spec()
        &&& M::obeys_eq_spec()
        &&& N::obeys_eq_spec()
        &&& O::obeys_eq_spec()
        &&& P::obeys_eq_spec()
    }

    open spec fn eq_spec(&self, other: &Self) -> bool {
        match self@ {
            Enum16::A(x) => other@ matches Enum16::A(y) && x.eq_spec(&y),
            Enum16::B(x) => other@ matches Enum16::B(y) && x.eq_spec(&y),
            Enum16::C(x) => other@ matches Enum16::C(y) && x.eq_spec(&y),
            Enum16::D(x) => other@ matches Enum16::D(y) && x.eq_spec(&y),
            Enum16::E(x) => other@ matches Enum16::E(y) && x.eq_spec(&y),
            Enum16::F(x) => other@ matches Enum16::F(y) && x.eq_spec(&y),
            Enum16::G(x) => other@ matches Enum16::G(y) && x.eq_spec(&y),
            Enum16::H(x) => other@ matches Enum16::H(y) && x.eq_spec(&y),
            Enum16::I(x) => other@ matches Enum16::I(y) && x.eq_spec(&y),
            Enum16::J(x) => other@ matches Enum16::J(y) && x.eq_spec(&y),
            Enum16::K(x) => other@ matches Enum16::K(y) && x.eq_spec(&y),
            Enum16::L(x) => other@ matches Enum16::L(y) && x.eq_spec(&y),
            Enum16::M(x) => other@ matches Enum16::M(y) && x.eq_spec(&y),
            Enum16::N(x) => other@ matches Enum16::N(y) && x.eq_spec(&y),
            Enum16::O(x) => other@ matches Enum16::O(y) && x.eq_spec(&y),
            Enum16::P(x) => other@ matches Enum16::P(y) && x.eq_spec(&y),
        }
    }
}

impl<
    A: ErasablePtr + Eq,
    B: ErasablePtr + Eq,
    C: ErasablePtr + Eq,
    D: ErasablePtr + Eq,
    E: ErasablePtr + Eq,
    F: ErasablePtr + Eq,
    G: ErasablePtr + Eq,
    H: ErasablePtr + Eq,
    I: ErasablePtr + Eq,
    J: ErasablePtr + Eq,
    K: ErasablePtr + Eq,
    L: ErasablePtr + Eq,
    M: ErasablePtr + Eq,
    N: ErasablePtr + Eq,
    O: ErasablePtr + Eq,
    P: ErasablePtr + Eq,
> Eq for Union16<A, B, C, D, E, F, G, H, I, J, K, L, M, N, O, P> {}

impl<
    A: ErasablePtr + Hash,
    B: ErasablePtr + Hash,
    C: ErasablePtr + Hash,
    D: ErasablePtr + Hash,
    E: ErasablePtr + Hash,
    F: ErasablePtr + Hash,
    G: ErasablePtr + Hash,
    H: ErasablePtr + Hash,
    I: ErasablePtr + Hash,
    J: ErasablePtr + Hash,
    K: ErasablePtr + Hash,
    L: ErasablePtr + Hash,
    M: ErasablePtr + Hash,
    N: ErasablePtr + Hash,
    O: ErasablePtr + Hash,
    P: ErasablePtr + Hash,
> Hash for Union16<A, B, C, D, E, F, G, H, I, J, K, L, M, N, O, P> {
    /// Feeds the pointer that the union holds into `state`, by the `Hash`
    /// of its type.
    fn hash<S: Hasher>(&self, state: &mut S) {
        proof {
            use_type_invariant(self);
        }
        if check_tag(self.raw, MASK_16, TAG_A) {
            hash_erased::<A, S>(unset_tag(self.raw, MASK_16, TAG_A), state)
        } else if check_tag(self.raw, MASK_16, TAG_B) {
            hash_erased::<B, S>(unset_tag(self.raw, MASK_16, TAG_B), state)
        } else if check_tag(self.raw, MASK_16, TAG_C) {
            hash_erased::<C, S>(unset_tag(self.raw, MASK_16, TAG_C), state)
        } else if check_tag(self.raw, MASK_16, TAG_D) {
            hash_erased::<D, S>(unset_tag(self.raw, MASK_16, TAG_D), state)
        } else if check_tag(self.raw, MASK_16, TAG_E) {
            hash_erased::<E, S>(unset_tag(self.raw, MASK_16, TAG_E), state)
        } else if check_tag(self.raw, MASK_16, TAG_F) {
            hash_erased::<F, S>(unset_tag(self.raw, MASK_16, TAG_F), state)
        } else if check_tag(self.raw, MASK_16, TAG_G) {
            hash_erased::<G, S>(unset_tag(self.raw, MASK_16, TAG_G), state)
        } else if check_tag(self.raw, MASK_16, TAG_H) {
            hash_erased::<H, S>(unset_tag(self.raw, MASK_16, TAG_H), state)
        } else if check_tag(self.raw, MASK_16, TAG_I) {
            hash_erased::<I, S>(unset_tag(self.raw, MASK_16, TAG_I), state)
        } else if check_tag(self.raw, MASK_16, TAG_J) {
            hash_erased::<J, S>(unset_tag(self.raw, MASK_16, TAG_J), state)
        } else if check_tag(self.raw, MASK_16, TAG_K) {
            hash_erased::<K, S>(unset_tag(self.raw, MASK_16, TAG_K), state)
        } else if check_tag(self.raw, MASK_16, TAG_L) {
            hash_erased::<L, S>(unset_tag(self.raw, MASK_16, TAG_L), state)
        } else if check_tag(self.raw, MASK_16, TAG_M) {
            hash_erased::<M, S>(unset_tag(self.raw, MASK_16, TAG_M), state)
        } else if check_tag(self.raw, MASK_16, TAG_N) {
            hash_erased::<N, S>(unset_tag(self.raw, MASK_16, TAG_N), state)
        } else if check_tag(self.raw, MASK_16, TAG_O) {
            hash_erased::<O, S>(unset_tag(self.raw, MASK_16, TAG_O), state)
        } else {
            hash_erased::<P, S>(unset_tag(self.raw, MASK_16, TAG_P), state)
        }
    }
}

impl<
    A: ErasablePtr + Debug,
    B: ErasablePtr + Debug,
    C: ErasablePtr + Debug,
    D: ErasablePtr + Debug,
    E: ErasablePtr + Debug,
    F: ErasablePtr + Debug,
    G: ErasablePtr + Debug,
    H: ErasablePtr + Debug,
    I: ErasablePtr + Debug,
    J: ErasablePtr + Debug,
    K: ErasablePtr + Debug,
    L: ErasablePtr + Debug,
    M: ErasablePtr + Debug,
    N: ErasablePtr + Debug,
    O: ErasablePtr + Debug,
    P: ErasablePtr + Debug,
> Debug for Union16<A, B, C, D, E, F, G, H, I, J, K, L, M, N, O, P> {
    /// Writes the pointer that the union holds, by the `Debug` of its type,
    /// as the field of a tuple struct that is called as its variant.
    fn fmt(&self, f: &mut Formatter<'_>) -> (r: Result<(), Error>) {
        proof {
            use_type_invariant(self);
        }
        if check_tag(self.raw, MASK_16, TAG_A) {
            debug_tuple_erased::<A>("A", unset_tag(self.raw, MASK_16, TAG_A), f)
        } else if check_tag(self.raw, MASK_16, TAG_B) {
            debug_tuple_erased::<B>("B", unset_tag(self.raw, MASK_16, TAG_B), f)
        } else if check_tag(self.raw, MASK_16, TAG_C) {
            debug_tuple_erased::<C>("C", unset_tag(self.raw, MASK_16, TAG_C), f)
        } else if check_tag(self.raw, MASK_16, TAG_D) {
            debug_tuple_erased::<D>("D", unset_tag(self.raw, MASK_16, TAG_D), f)
        } else if check_tag(self.raw, MASK_16, TAG_E) {
            debug_tuple_erased::<E>("E", unset_tag(self.raw, MASK_16, TAG_E), f)
        } else if check_tag(self.raw, MASK_16, TAG_F) {
            debug_tuple_erased::<F>("F", unset_tag(self.raw, MASK_16, TAG_F), f)
        } else if check_tag(self.raw, MASK_16, TAG_G) {
            debug_tuple_erased::<G>("G", unset_tag(self.raw, MASK_16, TAG_G), f)
        } else if check_tag(self.raw, MASK_16, TAG_H) {
            debug_tuple_erased::<H>("H", unset_tag(self.raw, MASK_16, TAG_H), f)
        } else if check_tag(self.raw, MASK_16, TAG_I) {
            debug_tuple_erased::<I>("I", unset_tag(self.raw, MASK_16, TAG_I), f)
        } else if check_tag(self.raw, MASK_16, TAG_J) {
            debug_tuple_erased::<J>("J", unset_tag(self.raw, MASK_16, TAG_J), f)
        } else if check_tag(self.raw, MASK_16, TAG_K) {
            debug_tuple_erased::<K>("K", unset_tag(self.raw, MASK_16, TAG_K), f)
        } else if check_tag(self.raw, MASK_16, TAG_L) {
            debug_tuple_erased::<L>("L", unset_tag(self.raw, MASK_16, TAG_L), f)
        } else if check_tag(self.raw, MASK_16, TAG_M) {
            debug_tuple_erased::<M>("M", unset_tag(self.raw, MASK_16, TAG_M), f)
        } else if check_tag(self.raw, MASK_16, TAG_N) {
            debug_tuple_erased::<N>("N", unset_tag(self.raw, MASK_16, TAG_N), f)
        } else if check_tag(self.raw, MASK_16, TAG_O) {
            debug_tuple_erased::<O>("O", unset_tag(self.raw, MASK_16, TAG_O), f)
        } else {
            debug_tuple_erased::<P>("P", unset_tag(self.raw, MASK_16, TAG_P), f)
        }
    }
}

impl<
    A: ErasablePtr,
    B: ErasablePtr,
    C: ErasablePtr,
    D: ErasablePtr,
    E: ErasablePtr,
    F: ErasablePtr,
    G: ErasablePtr,
    H: ErasablePtr,
    I: ErasablePtr,
    J: ErasablePtr,
    K: ErasablePtr,
    L: ErasablePtr,
    M: ErasablePtr,
    N: ErasablePtr,
    O: ErasablePtr,
    P: ErasablePtr,
> Debug for Builder16<A, B, C, D, E, F, G, H, I, J, K, L, M, N, O, P> {
    /// Writes the name of the builder and, as its one field, the marker of
    /// the pointer types that it vouches for.
    fn fmt(&self, f: &mut Formatter<'_>) -> (r: Result<(), Error>) {
        debug_tuple_into("Builder16", &self.phantom, f)
    }
}

} // verus!
