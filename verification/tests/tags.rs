//! The tag arithmetic on concrete addresses.

use pointer_utils::tag::{
    check_tag, ptr_addr, ptr_map_addr, ptr_mask, ptr_tag, ptr_with_addr, set_tag, unset_any_tag,
    unset_tag, MASK_16, MASK_2, MASK_4, MASK_8, TAG_A, TAG_B, TAG_C, TAG_D, TAG_E, TAG_H, TAG_P,
};
use pointer_utils::ErasedPtr;

fn at(addr: usize) -> ErasedPtr {
    ErasedPtr::new(addr).unwrap()
}

#[test]
fn erased_ptr_is_never_null() {
    assert!(ErasedPtr::new(0).is_none());
    assert_eq!(ErasedPtr::new(1).unwrap().addr(), 1);
    assert_eq!(ErasedPtr::new(usize::MAX).unwrap().addr(), usize::MAX);
    assert_eq!(ErasedPtr::new_unchecked(0x40).addr(), 0x40);
    assert_eq!(at(0x40).with_addr(0x80).addr(), 0x80);
}

#[test]
fn masks_and_tags_have_their_values() {
    assert_eq!(MASK_2, 1);
    assert_eq!(MASK_4, 3);
    assert_eq!(MASK_8, 7);
    assert_eq!(MASK_16, 15);
    assert_eq!(TAG_A, 0);
    assert_eq!(TAG_B, 1);
    assert_eq!(TAG_C, 2);
    assert_eq!(TAG_D, 3);
    assert_eq!(TAG_E, 4);
    assert_eq!(TAG_H, 7);
    assert_eq!(TAG_P, 15);
}

#[test]
fn address_of_a_pointer() {
    assert_eq!(ptr_addr(at(0x1234)), 0x1234);
    assert_eq!(ptr_addr(ptr_with_addr(at(0x1234), 0x5678)), 0x5678);
    assert_eq!(ptr_addr(ptr_map_addr(at(0x1000), |addr| addr + 0x10)), 0x1010);
    assert_eq!(ptr_addr(ptr_tag(at(0x1000), 0b101)), 0x1005);
    assert_eq!(ptr_addr(ptr_mask(at(0x1237), !0b111)), 0x1230);
    assert_eq!(ptr_addr(ptr_mask(at(0x1237), 0b111)), 0b111);
}

#[test]
fn check_reads_the_bits_under_the_mask() {
    assert!(check_tag(at(0x1000), MASK_8, 0));
    assert!(!check_tag(at(0x1004), MASK_8, 0));
    assert!(check_tag(at(0x1004), MASK_4, 0));
    assert!(check_tag(at(0x1004), MASK_8, TAG_E));
    assert!(!check_tag(at(0x1004), MASK_8, TAG_D));
    assert!(check_tag(at(0x100f), MASK_16, TAG_P));
    assert!(check_tag(at(0x100f), MASK_2, TAG_B));
    // a tag that does not fit under the mask is never there
    assert!(!check_tag(at(0x100f), MASK_2, TAG_P));
}

#[test]
fn set_stores_the_tag_in_a_clean_address() {
    assert_eq!(set_tag(at(0x1000), MASK_8, TAG_E).addr(), 0x1004);
    assert_eq!(set_tag(at(0x1000), MASK_8, TAG_A).addr(), 0x1000);
    assert_eq!(set_tag(at(0x1000), MASK_16, TAG_P).addr(), 0x100f);
    assert_eq!(set_tag(at(0x1002), MASK_2, TAG_B).addr(), 0x1003);
}

#[test]
fn unset_gives_the_clean_address_back() {
    assert_eq!(unset_tag(at(0x1004), MASK_8, TAG_E).addr(), 0x1000);
    assert_eq!(unset_tag(at(0x100f), MASK_16, TAG_P).addr(), 0x1000);
    assert_eq!(unset_tag(at(0x1003), MASK_2, TAG_B).addr(), 0x1002);
    assert_eq!(unset_any_tag(at(0x1007), MASK_8).addr(), 0x1000);
    assert_eq!(unset_any_tag(at(0x1007), MASK_4).addr(), 0x1004);
}

#[test]
fn set_then_unset_is_the_identity() {
    let masks = [MASK_2, MASK_4, MASK_8, MASK_16];
    for mask in masks {
        for tag in 0..=mask {
            let clean = at(0xabc0);
            let tagged = set_tag(clean, mask, tag);
            assert!(check_tag(tagged, mask, tag));
            for other in 0..=mask {
                assert_eq!(check_tag(tagged, mask, other), other == tag);
            }
            assert_eq!(unset_tag(tagged, mask, tag).addr(), 0xabc0);
            assert_eq!(unset_any_tag(tagged, mask).addr(), 0xabc0);
        }
    }
}
