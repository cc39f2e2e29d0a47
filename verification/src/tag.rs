//! Tag arithmetic: the bit operations that keep a small tag in the low
//! bits of an aligned address. Every other operation of the pointer unions is
//! built from `check_tag`, `set_tag` and `unset_tag`.

use vstd::prelude::*;
use crate::erased::ErasedPtr;

verus! {

/// The bits that hold the tag of a union of two pointers.
pub const MASK_2: usize = 0b0001;

/// The bits that hold the tag of a union of four pointers.
pub const MASK_4: usize = 0b0011;

/// The bits that hold the tag of a union of eight pointers.
pub const MASK_8: usize = 0b0111;

/// The bits that hold the tag of a union of sixteen pointers.
pub const MASK_16: usize = 0b1111;

/// The tag of the variant `A`.
pub const TAG_A: usize = 0b0000;

/// The tag of the variant `B`.
pub const TAG_B: usize = 0b0001;

/// The tag of the variant `C`.
pub const TAG_C: usize = 0b0010;

/// The tag of the variant `D`.
pub const TAG_D: usize = 0b0011;

/// The tag of the variant `E`.
pub const TAG_E: usize = 0b0100;

/// The tag of the variant `F`.
pub const TAG_F: usize = 0b0101;

/// The tag of the variant `G`.
pub const TAG_G: usize = 0b0110;

/// The tag of the variant `H`.
pub const TAG_H: usize = 0b0111;

/// The tag of the variant `I`.
pub const TAG_I: usize = 0b1000;

/// The tag of the variant `J`.
pub const TAG_J: usize = 0b1001;

/// The tag of the variant `K`.
pub const TAG_K: usize = 0b1010;

/// The tag of the variant `L`.
pub const TAG_L: usize = 0b1011;

/// The tag of the variant `M`.
pub const TAG_M: usize = 0b1100;

/// The tag of the variant `N`.
pub const TAG_N: usize = 0b1101;

/// The tag of the variant `O`.
pub const TAG_O: usize = 0b1110;

/// The tag of the variant `P`.
pub const TAG_P: usize = 0b1111;

/// The tag that the address `addr` carries under `mask`.
pub open spec fn tag_of(addr: usize, mask: usize) -> usize {
    addr & mask
}

/// The address `addr` with the bits under `mask` cleared.
pub open spec fn untagged(addr: usize, mask: usize) -> usize {
    addr & !mask
}

/// The address `addr` with the bits of `tag` set.
pub open spec fn tagged(addr: usize, tag: usize) -> usize {
    addr | tag
}

/// The word that packs a pointer with the erasure `erased` under `tag`: the
/// erasure with the tag set. `None` where there is no erasure, or a null one,
/// or one that is not clean under `mask`.
pub open spec fn pack_word(erased: Option<usize>, mask: usize, tag: usize) -> Option<usize> {
    match erased {
        Some(addr) => if addr != 0 && tag_of(addr, mask) == 0 {
            Some(tagged(addr, tag))
        } else {
            None
        },
        None => None,
    }
}

/// Setting a tag on a clean address stores the tag and keeps the address:
/// the tag can be read back, and clearing the tag bits gives the address
/// again. A non-null address stays non-null.
pub proof fn lemma_set_tag(addr: usize, mask: usize, tag: usize)
    by (bit_vector)
    requires
        addr & mask == 0,
        tag & mask == tag,
    ensures
        (addr | tag) & mask == tag,
        (addr | tag) & !mask == addr,
        addr != 0 ==> (addr | tag) != 0,
{
}

/// Clearing the tag of an address leaves a clean address, and setting the
/// tag on it again gives the first address back.
pub proof fn lemma_unset_tag(addr: usize, mask: usize)
    by (bit_vector)
    ensures
        (addr & !mask) & mask == 0,
        (addr & !mask) | (addr & mask) == addr,
{
}

/// Under each of the four masks, an address is clean exactly when it is a
/// multiple of the number of variants.
pub proof fn lemma_clean_is_multiple(addr: usize)
    by (bit_vector)
    ensures
        addr & 0b0001 == 0 <==> addr % 2 == 0,
        addr & 0b0011 == 0 <==> addr % 4 == 0,
        addr & 0b0111 == 0 <==> addr % 8 == 0,
        addr & 0b1111 == 0 <==> addr % 16 == 0,
{
}

/// Each tag fits under the mask of every union that has its variant.
pub proof fn lemma_tags_fit()
    by (bit_vector)
    ensures
        TAG_A & MASK_2 == TAG_A,
        TAG_B & MASK_2 == TAG_B,
        TAG_A & MASK_4 == TAG_A,
        TAG_B & MASK_4 == TAG_B,
        TAG_C & MASK_4 == TAG_C,
        TAG_D & MASK_4 == TAG_D,
        TAG_A & MASK_8 == TAG_A,
        TAG_B & MASK_8 == TAG_B,
        TAG_C & MASK_8 == TAG_C,
        TAG_D & MASK_8 == TAG_D,
        TAG_E & MASK_8 == TAG_E,
        TAG_F & MASK_8 == TAG_F,
        TAG_G & MASK_8 == TAG_G,
        TAG_H & MASK_8 == TAG_H,
        TAG_A & MASK_16 == TAG_A,
        TAG_B & MASK_16 == TAG_B,
        TAG_C & MASK_16 == TAG_C,
        TAG_D & MASK_16 == TAG_D,
        TAG_E & MASK_16 == TAG_E,
        TAG_F & MASK_16 == TAG_F,
        TAG_G & MASK_16 == TAG_G,
        TAG_H & MASK_16 == TAG_H,
        TAG_I & MASK_16 == TAG_I,
        TAG_J & MASK_16 == TAG_J,
        TAG_K & MASK_16 == TAG_K,
        TAG_L & MASK_16 == TAG_L,
        TAG_M & MASK_16 == TAG_M,
        TAG_N & MASK_16 == TAG_N,
        TAG_O & MASK_16 == TAG_O,
        TAG_P & MASK_16 == TAG_P,
{
}

/// The address of an erased pointer.
pub fn ptr_addr(this: ErasedPtr) -> (addr: usize)
    ensures
        addr == this@,
        addr != 0,
    opens_invariants none
    no_unwind
{
    this.addr()
}

/// The pointer `this` moved to the address `addr`.
pub fn ptr_with_addr(this: ErasedPtr, addr: usize) -> (r: ErasedPtr)
    requires
        addr != 0,
    ensures
        r@ == addr,
    opens_invariants none
    no_unwind
{
    this.with_addr(addr)
}

/// The pointer `this` moved to the address that `f` makes of its own.
pub fn ptr_map_addr<F: FnOnce(usize) -> usize>(this: ErasedPtr, f: F) -> (r: ErasedPtr)
    requires
        f.requires((this@,)),
        forall|addr: usize| f.ensures((this@,), addr) ==> addr != 0,
    ensures
        f.ensures((this@,), r@),
{
    ptr_with_addr(this, f(ptr_addr(this)))
}

/// The pointer `this` with the bits of `tag` set in its address.
pub fn ptr_tag(this: ErasedPtr, tag: usize) -> (r: ErasedPtr)
    ensures
        r@ == tagged(this@, tag),
    opens_invariants none
    no_unwind
{
    let addr: usize = ptr_addr(this);
    assert(addr | tag != 0) by (bit_vector)
        requires
            addr != 0,
    ;
    ptr_with_addr(this, addr | tag)
}

/// The pointer `this` with only the bits under `mask` kept in its address.
pub fn ptr_mask(this: ErasedPtr, mask: usize) -> (r: ErasedPtr)
    requires
        this@ & mask != 0,
    ensures
        r@ == this@ & mask,
    opens_invariants none
    no_unwind
{
    ptr_with_addr(this, ptr_addr(this) & mask)
}

/// Whether the bits of `ptr` under `mask` hold `tag`.
pub fn check_tag(ptr: ErasedPtr, mask: usize, tag: usize) -> (r: bool)
    ensures
        r == (tag_of(ptr@, mask) == tag),
    opens_invariants none
    no_unwind
{
    (ptr_addr(ptr) & mask) == tag
}

/// Store `tag` in the bits of `ptr` under `mask`, which must be clear.
pub fn set_tag(ptr: ErasedPtr, mask: usize, tag: usize) -> (r: ErasedPtr)
    requires
        tag_of(ptr@, mask) == 0,
        tag & mask == tag,
    ensures
        r@ == tagged(ptr@, tag),
        tag_of(r@, mask) == tag,
        untagged(r@, mask) == ptr@,
    opens_invariants none
    no_unwind
{
    proof {
        lemma_set_tag(ptr@, mask, tag);
    }
    ptr_tag(ptr, tag)
}

/// Remove `tag` from the bits of `ptr` under `mask`, which must hold it.
/// What remains must be an address, that is, not null.
pub fn unset_tag(ptr: ErasedPtr, mask: usize, tag: usize) -> (r: ErasedPtr)
    requires
        tag_of(ptr@, mask) == tag,
        untagged(ptr@, mask) != 0,
    ensures
        r@ == untagged(ptr@, mask),
        tag_of(r@, mask) == 0,
        tagged(r@, tag) == ptr@,
    opens_invariants none
    no_unwind
{
    proof {
        lemma_unset_tag(ptr@, mask);
    }
    ptr_mask(ptr, !mask)
}

/// Remove whatever tag the bits of `ptr` under `mask` hold.
/// What remains must be an address, that is, not null.
pub fn unset_any_tag(ptr: ErasedPtr, mask: usize) -> (r: ErasedPtr)
    requires
        untagged(ptr@, mask) != 0,
    ensures
        r@ == untagged(ptr@, mask),
        tag_of(r@, mask) == 0,
    opens_invariants none
    no_unwind
{
    proof {
        lemma_unset_tag(ptr@, mask);
    }
    ptr_mask(ptr, !mask)
}

} // verus!
