//! Pointer utilities: erased pointers, thin pointers, pointer unions that
//! are one machine word wide, and the layouts of slice-based dynamically
//! sized types.
//!
//! # Pointer unions
//!
//! A [`Union2`], [`Union4`], [`Union8`] or [`Union16`] holds exactly one of
//! two, four, eight or sixteen owned pointers, in the room of one. Which
//! variant it holds is not stored beside the pointer: it is kept in the low
//! bits of the address, which are zero in a pointer that is aligned to the
//! number of variants.
//!
//! - [`tag`] is the arithmetic on addresses: check, set and clear a tag under
//!   a mask.
//! - A builder ([`Builder2`] and its like) is evidence that every pointer of
//!   its types is aligned well enough. With a builder a union is made without
//!   a check; without one, the `new_` constructors check the address and hand
//!   the pointer back where it does not fit.
//! - An enum ([`Enum2`] and its like) is the unpacked form of a union, for
//!   pattern matching: `unpack` and `pack` go from the one to the other.
//! - Cloning, comparing, hashing and printing a union goes to the pointer of
//!   the variant that is active ([`forward`]).
//!
//! # The model
//!
//! The library never looks at what a pointer points to. All it needs of a
//! pointer type is [`ErasablePtr`]: a pointer can be erased to a machine word
//! and restored from it. In contracts, `p.erased()` is the address that `p`
//! erases to, and the view of a union is the pointer that it holds: a union
//! of the word `w` holds, in the variant that the tag of `w` names, the
//! pointer that erases to `w` without its tag. Every union that a program can
//! reach holds a pointer in this sense; this is its type invariant.
//!
//! # What is believed
//!
//! That an implementation of [`ErasablePtr`] or [`SliceDst`] meets the
//! contracts of the trait, and the few calls into the standard library and
//! into `scopeguard` in [`std_calls`], `unerase_in_drop` and `Thin::with_mut`.
//! Everything else is proved.

pub mod erased;
pub mod forward;
pub mod layout;
pub mod slice_dst;
pub mod std_calls;
pub mod tag;
pub mod thin;
pub mod union16;
pub mod union2;
pub mod union4;
pub mod union8;

pub use erased::{ErasablePtr, ErasedPtr, NeverPtr};
pub use slice_dst::{
    alloc_slice_dst, alloc_slice_dst_in, SliceDst, SliceWithHeader, StrWithHeader,
};
pub use thin::Thin;
pub use union16::{Builder16, Enum16, Union16};
pub use union2::{Builder2, Enum2, Union2};
pub use union4::{Builder4, Enum4, Union4};
pub use union8::{Builder8, Enum8, Union8};
