//! Layouts of blocks and of structures, on concrete sizes.

use pointer_utils::layout::{
    extend_layout, layout_array, layout_err, layout_padding_needed_for, pad_layout_to_align,
    repeat_layout, repr_c_3, Layout, LayoutError,
};
use pointer_utils::slice_dst::{place, ptr_dangling_at, Placement};
use pointer_utils::{alloc_slice_dst, alloc_slice_dst_in, SliceDst, SliceWithHeader, StrWithHeader};

fn layout(size: usize, align: usize) -> Layout {
    Layout::from_size_align(size, align).unwrap()
}

const MAX: usize = isize::MAX as usize;

#[test]
fn a_layout_has_a_power_of_two_alignment() {
    assert_eq!(layout(24, 8).size(), 24);
    assert_eq!(layout(24, 8).align(), 8);
    assert!(Layout::from_size_align(0, 1).is_ok());
    assert!(Layout::from_size_align(8, 0).is_err());
    assert!(Layout::from_size_align(8, 3).is_err());
    assert!(Layout::from_size_align(8, 12).is_err());
    assert!(Layout::from_size_align(8, MAX + 1).is_err());
    assert!(Layout::from_size_align(0, MAX + 1).is_ok());
    assert_eq!(Layout::from_size_align(8, 3).unwrap_err(), LayoutError);
    assert_eq!(layout_err(), LayoutError);
}

#[test]
fn a_layout_fits_when_rounded_up() {
    assert!(Layout::from_size_align(MAX, 1).is_ok());
    assert!(Layout::from_size_align(MAX + 1, 1).is_err());
    assert!(Layout::from_size_align(MAX - 7, 8).is_ok());
    assert!(Layout::from_size_align(MAX - 6, 8).is_err());
    assert!(Layout::from_size_align(usize::MAX, 16).is_err());
}

#[test]
fn the_layout_of_a_type() {
    let l = Layout::new::<u64>();
    assert_eq!((l.size(), l.align()), (8, std::mem::align_of::<u64>()));
    let l = Layout::new::<()>();
    assert_eq!((l.size(), l.align()), (0, 1));
    let l = Layout::new::<[u16; 5]>();
    assert_eq!((l.size(), l.align()), (10, 2));
}

#[test]
fn padding_rounds_up_to_the_alignment() {
    assert_eq!(layout_padding_needed_for(&layout(9, 1), 4), 3);
    assert_eq!(layout_padding_needed_for(&layout(8, 1), 4), 0);
    assert_eq!(layout_padding_needed_for(&layout(0, 1), 16), 0);
    assert_eq!(layout_padding_needed_for(&layout(1, 1), 16), 15);
    assert_eq!(layout_padding_needed_for(&layout(17, 1), 1), 0);
    assert_eq!(layout_padding_needed_for(&layout(MAX, 1), MAX + 1), 1);
    let padded = pad_layout_to_align(&layout(9, 4));
    assert_eq!((padded.size(), padded.align()), (12, 4));
    let padded = pad_layout_to_align(&layout(12, 4));
    assert_eq!((padded.size(), padded.align()), (12, 4));
    let padded = pad_layout_to_align(&layout(0, 8));
    assert_eq!((padded.size(), padded.align()), (0, 8));
}

#[test]
fn extending_puts_the_next_field_at_its_alignment() {
    let (l, offset) = extend_layout(&layout(1, 1), layout(8, 8)).unwrap();
    assert_eq!((l.size(), l.align(), offset), (16, 8, 8));
    let (l, offset) = extend_layout(&layout(8, 8), layout(1, 1)).unwrap();
    assert_eq!((l.size(), l.align(), offset), (9, 8, 8));
    let (l, offset) = extend_layout(&layout(6, 2), layout(4, 4)).unwrap();
    assert_eq!((l.size(), l.align(), offset), (12, 4, 8));
    let (l, offset) = extend_layout(&layout(0, 1), layout(0, 1)).unwrap();
    assert_eq!((l.size(), l.align(), offset), (0, 1, 0));
    assert!(extend_layout(&layout(MAX, 1), layout(1, 1)).is_err());
    assert!(extend_layout(&layout(MAX - 7, 8), layout(8, 8)).is_err());
    assert!(extend_layout(&layout(MAX - 15, 8), layout(8, 8)).is_ok());
}

#[test]
fn repeating_pads_each_block() {
    let (l, stride) = repeat_layout(&layout(6, 4), 3).unwrap();
    assert_eq!((l.size(), l.align(), stride), (24, 4, 8));
    let (l, stride) = repeat_layout(&layout(6, 4), 0).unwrap();
    assert_eq!((l.size(), l.align(), stride), (0, 4, 8));
    let (l, stride) = repeat_layout(&layout(0, 4), 1000).unwrap();
    assert_eq!((l.size(), l.align(), stride), (0, 4, 0));
    assert!(repeat_layout(&layout(8, 8), usize::MAX).is_err());
    assert!(repeat_layout(&layout(8, 8), MAX / 8 + 1).is_err());
    assert!(repeat_layout(&layout(8, 8), MAX / 8).is_ok());
    let l = layout_array::<u32>(5).unwrap();
    assert_eq!((l.size(), l.align()), (20, 4));
    let l = layout_array::<u8>(0).unwrap();
    assert_eq!((l.size(), l.align()), (0, 1));
    assert!(layout_array::<u32>(MAX / 2).is_err());
}

#[test]
fn a_structure_of_three_fields() {
    let (l, offsets) = repr_c_3([layout(8, 8), layout(1, 1), layout(6, 2)]).unwrap();
    assert_eq!((l.size(), l.align()), (16, 8));
    assert_eq!(offsets, [0, 8, 10]);
    let (l, offsets) = repr_c_3([layout(1, 1), layout(4, 4), layout(1, 1)]).unwrap();
    assert_eq!((l.size(), l.align()), (12, 4));
    assert_eq!(offsets, [0, 4, 8]);
    let (l, offsets) = repr_c_3([layout(0, 1), layout(0, 1), layout(0, 1)]).unwrap();
    assert_eq!((l.size(), l.align()), (0, 1));
    assert_eq!(offsets, [0, 0, 0]);
    assert!(repr_c_3([layout(MAX, 1), layout(1, 1), layout(0, 1)]).is_err());
    assert!(repr_c_3([layout(8, 8), layout(MAX - 15, 8), layout(8, 8)]).is_err());
}

#[test]
fn a_slice_with_a_header() {
    let word = std::mem::size_of::<usize>();
    let (l, offsets) = SliceWithHeader::<u8, u16>::layout(3).unwrap();
    assert_eq!(offsets, [0, word, word + 2]);
    assert_eq!(l.align(), std::mem::align_of::<usize>());
    assert_eq!(l.size(), 2 * word);
    let (l, offsets) = SliceWithHeader::<(), u8>::layout(0).unwrap();
    assert_eq!(offsets, [0, word, word]);
    assert_eq!(l.size(), word);
    let (l, offsets) = StrWithHeader::<u32>::layout(5).unwrap();
    assert_eq!(offsets, [0, word, word + 4]);
    assert_eq!(l.size(), word + 4 + 5 + (word - (4 + 5) % word) % word);
    assert!(SliceWithHeader::<u8, u64>::layout(MAX / 4).is_err());
    assert!(StrWithHeader::<u8>::layout(MAX).is_err());
    let l = <SliceWithHeader<u8, u16> as SliceDst>::layout_for(3).unwrap();
    assert_eq!(l.size(), 2 * word);
    let l = <StrWithHeader<u32> as SliceDst>::layout_for(5).unwrap();
    assert_eq!(l.align(), std::mem::align_of::<usize>());
    let l = <[u32] as SliceDst>::layout_for(7).unwrap();
    assert_eq!((l.size(), l.align()), (28, 4));
    assert!(<[u32] as SliceDst>::layout_for(MAX).is_err());
    assert!(<StrWithHeader<u32> as SliceDst>::layout_for(MAX).is_err());
}

#[test]
fn nothing_is_allocated_for_what_takes_no_room() {
    assert!(matches!(place(layout(0, 8)), Placement::Dangling(p) if p.addr() == 8));
    assert!(matches!(place(layout(0, 1)), Placement::Dangling(p) if p.addr() == 1));
    assert!(matches!(place(layout(1, 8)), Placement::Allocate(l) if l.size() == 1 && l.align() == 8));
    assert_eq!(ptr_dangling_at(64).addr(), 64);
    assert!(matches!(alloc_slice_dst::<[u32]>(0), Ok(Placement::Dangling(p)) if p.addr() == 4));
    assert!(matches!(alloc_slice_dst::<[()]>(10), Ok(Placement::Dangling(p)) if p.addr() == 1));
    assert!(matches!(
        alloc_slice_dst::<[u32]>(3),
        Ok(Placement::Allocate(l)) if l.size() == 12 && l.align() == 4
    ));
    let word = std::mem::size_of::<usize>();
    assert!(matches!(
        alloc_slice_dst::<SliceWithHeader<(), u8>>(0),
        Ok(Placement::Allocate(l)) if l.size() == word
    ));
    assert!(alloc_slice_dst::<[u32]>(MAX).is_err());
    assert!(alloc_slice_dst::<SliceWithHeader<u8, u64>>(MAX / 4).is_err());
}

#[test]
fn a_container_may_ask_for_more_room() {
    let two_words = |inner: Layout| {
        let header = Layout::new::<[usize; 2]>();
        pad_layout_to_align(&extend_layout(&header, inner).unwrap().0)
    };
    let word = std::mem::size_of::<usize>();
    assert!(matches!(
        alloc_slice_dst_in::<[u8], _>(two_words, 3),
        Ok(Placement::Allocate(l)) if l.size() == 3 * word && l.align() == word
    ));
    assert!(matches!(
        alloc_slice_dst_in::<[u8], _>(two_words, 0),
        Ok(Placement::Allocate(l)) if l.size() == 2 * word
    ));
    assert!(matches!(
        alloc_slice_dst_in::<[u8], _>(|it| it, 0),
        Ok(Placement::Dangling(p)) if p.addr() == 1
    ));
    assert!(alloc_slice_dst_in::<[u16], _>(|it| it, MAX).is_err());
}
