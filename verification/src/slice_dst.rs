//! Slice-based dynamically sized types: a header and a slice in one block.
//!
//! This module holds what is decided before such a block is allocated: the
//! layout of the block, and where an object of that layout is put.

use vstd::prelude::*;
use crate::erased::ErasedPtr;
use crate::layout::{
    can_repeat, layout_array, repeated, repr_c_3, repr_c_3_spec, Layout, LayoutError,
};

verus! {

/// A custom slice-based dynamically sized type.
pub trait SliceDst {
    /// The layout of the type with a slice of `len` items, or `None` where
    /// that is too large to exist.
    spec fn layout_of(len: usize) -> Option<Layout>;

    /// Get the layout of the slice-containing type with the given slice
    /// length, or an error where that is too large to exist.
    fn layout_for(len: usize) -> (r: Result<Layout, LayoutError>)
        ensures
            r is Ok <==> Self::layout_of(len) is Some,
            r matches Ok(layout) ==> Some(layout) == Self::layout_of(len),
    ;
}

/// Where an object of some layout is put.
#[derive(Clone, Copy, Debug, PartialEq, Eq)]
pub enum Placement {
    /// At this dangling address: the object takes no room, so nothing is
    /// allocated for it.
    Dangling(ErasedPtr),
    /// In a block of this layout, which is to be allocated.
    Allocate(Layout),
}

/// Where an object of the layout `layout` is put: one that takes no room at
/// the address that is its alignment, any other in a block of its own.
pub open spec fn placement_of(layout: Layout) -> Placement {
    if layout.size() == 0 {
        Placement::Dangling(ErasedPtr::at(layout.align()))
    } else {
        Placement::Allocate(layout)
    }
}

/// A dangling pointer at the address `addr`, which must not be null.
pub fn ptr_dangling_at(addr: usize) -> (r: ErasedPtr)
    requires
        addr != 0,
    ensures
        r == ErasedPtr::at(addr),
{
    ErasedPtr::new_unchecked(addr)
}

/// Decide where an object of the layout `layout` is put.
///
/// Nothing is allocated for an object that takes no room: it gets an
/// aligned dangling pointer.
pub fn place(layout: Layout) -> (r: Placement)
    ensures
        r == placement_of(layout),
{
    if layout.size() == 0 {
        proof {
            use_type_invariant(&layout);
        }
        Placement::Dangling(ptr_dangling_at(layout.align()))
    } else {
        Placement::Allocate(layout)
    }
}

/// Decide where a slice-based DST with `len` items is put.
///
/// If the type to be allocated has zero size, then an arbitrary aligned
/// dangling pointer is its place. An error where the type with `len` items
/// is too large to exist.
pub fn alloc_slice_dst<S: ?Sized + SliceDst>(len: usize) -> (r: Result<Placement, LayoutError>)
    ensures
        match r {
            Ok(placement) => S::layout_of(len) is Some && placement == placement_of(
                S::layout_of(len).unwrap(),
            ),
            Err(_) => S::layout_of(len) is None,
        },
{
    match S::layout_for(len) {
        Ok(layout) => Ok(place(layout)),
        Err(e) => Err(e),
    }
}

/// Decide where a slice-based DST with `len` items is put within some
/// container, whose layout `container` makes of the layout of the DST.
///
/// If the layout to be allocated has zero size, then an arbitrary aligned
/// dangling pointer is its place. An error where the DST with `len` items is
/// too large to exist; `container` is not called then.
pub fn alloc_slice_dst_in<S: ?Sized + SliceDst, F>(container: F, len: usize) -> (r: Result<
    Placement,
    LayoutError,
>) where F: FnOnce(Layout) -> Layout
    requires
        S::layout_of(len) is Some ==> container.requires((S::layout_of(len).unwrap(),)),
    ensures
        match r {
            Ok(placement) => S::layout_of(len) is Some && exists|layout: Layout|
                container.ensures((S::layout_of(len).unwrap(),), layout) && placement
                    == placement_of(layout),
            Err(_) => S::layout_of(len) is None,
        },
{
    match S::layout_for(len) {
        Ok(inner) => {
            let layout = container(inner);
            Ok(place(layout))
        },
        Err(e) => Err(e),
    }
}

impl<T> SliceDst for [T] {
    open spec fn layout_of(len: usize) -> Option<Layout> {
        if can_repeat(Layout::new_spec::<T>(), len) {
            Some(repeated(Layout::new_spec::<T>(), len))
        } else {
            None
        }
    }

    fn layout_for(len: usize) -> (r: Result<Layout, LayoutError>) {
        layout_array::<T>(len)
    }
}

/// The layout of a structure that holds a `usize` length, then a header of
/// the layout `header`, then `len` items of the layout `item` in a row; and
/// the offset of each of the three in it. `None` where that is too large.
pub open spec fn with_header_spec(header: Layout, item: Layout, len: usize) -> Option<
    (Layout, Seq<usize>),
> {
    if can_repeat(item, len) {
        repr_c_3_spec(Layout::new_spec::<usize>(), header, repeated(item, len))
    } else {
        None
    }
}

/// The layout of a structure that holds a `usize` length, then a `Header`,
/// then `len` values of type `Item` in a row; and the offset of each of the
/// three in it.
///
/// An error where the structure would be too large.
fn layout_with_header<Header, Item>(len: usize) -> (r: Result<(Layout, [usize; 3]), LayoutError>)
    ensures
        r is Ok <==> with_header_spec(
            Layout::new_spec::<Header>(),
            Layout::new_spec::<Item>(),
            len,
        ) is Some,
        r matches Ok((layout, offsets)) ==> Some((layout, offsets@)) == with_header_spec(
            Layout::new_spec::<Header>(),
            Layout::new_spec::<Item>(),
            len,
        ),
{
    broadcast use Layout::lemma_with;

    let length_layout = Layout::new::<usize>();
    let header_layout = Layout::new::<Header>();
    let slice_layout = match layout_array::<Item>(len) {
        Ok(layout) => layout,
        Err(e) => {
            return Err(e);
        },
    };
    repr_c_3([length_layout, header_layout, slice_layout])
}

/// A custom slice-based DST.
///
/// The length is stored as a `usize` at offset 0.
/// This must be the length of the trailing slice of the DST.
pub struct SliceWithHeader<Header, Item> {
    length: usize,
    /// The included header. Does not dictate the slice length.
    pub header: Header,
    /// The included slice.
    pub slice: [Item],
}

impl<Header, Item> SliceWithHeader<Header, Item> {
    /// The layout of the structure with a slice of `len` items, and the
    /// offsets of the length, the header and the slice in it.
    ///
    /// An error where the structure would be too large.
    pub fn layout(len: usize) -> (r: Result<(Layout, [usize; 3]), LayoutError>)
        ensures
            r is Ok <==> with_header_spec(
                Layout::new_spec::<Header>(),
                Layout::new_spec::<Item>(),
                len,
            ) is Some,
            r matches Ok((layout, offsets)) ==> Some((layout, offsets@)) == with_header_spec(
                Layout::new_spec::<Header>(),
                Layout::new_spec::<Item>(),
                len,
            ),
    {
        layout_with_header::<Header, Item>(len)
    }
}

impl<Header, Item> SliceDst for SliceWithHeader<Header, Item> {
    open spec fn layout_of(len: usize) -> Option<Layout> {
        match with_header_spec(Layout::new_spec::<Header>(), Layout::new_spec::<Item>(), len) {
            Some((layout, _)) => Some(layout),
            None => None,
        }
    }

    fn layout_for(len: usize) -> (r: Result<Layout, LayoutError>) {
        match Self::layout(len) {
            Ok((layout, _)) => Ok(layout),
            Err(e) => Err(e),
        }
    }
}

/// A custom str-based DST.
///
/// The length is stored as a `usize` at offset 0.
/// This must be the length of the trailing str.
pub struct StrWithHeader<Header> {
    length: usize,
    /// The included header. Does not dictate the slice length.
    pub header: Header,
    /// The included str.
    pub str: str,
}

impl<Header> StrWithHeader<Header> {
    /// The layout of the structure with a str of `len` bytes, and the
    /// offsets of the length, the header and the str in it.
    ///
    /// An error where the structure would be too large.
    pub fn layout(len: usize) -> (r: Result<(Layout, [usize; 3]), LayoutError>)
        ensures
            r is Ok <==> with_header_spec(
                Layout::new_spec::<Header>(),
                Layout::new_spec::<u8>(),
                len,
            ) is Some,
            r matches Ok((layout, offsets)) ==> Some((layout, offsets@)) == with_header_spec(
                Layout::new_spec::<Header>(),
                Layout::new_spec::<u8>(),
                len,
            ),
    {
        layout_with_header::<Header, u8>(len)
    }
}

impl<Header> SliceDst for StrWithHeader<Header> {
    open spec fn layout_of(len: usize) -> Option<Layout> {
        match with_header_spec(Layout::new_spec::<Header>(), Layout::new_spec::<u8>(), len) {
            Some((layout, _)) => Some(layout),
            None => None,
        }
    }

    fn layout_for(len: usize) -> (r: Result<Layout, LayoutError>) {
        match Self::layout(len) {
            Ok((layout, _)) => Ok(layout),
            Err(e) => Err(e),
        }
    }
}

} // verus!
