//! These tests don't really assert anything, they just exercise the API.

use pointer_utils::{Builder2, Builder4, ErasablePtr, ErasedPtr};
use std::sync::atomic::{AtomicUsize, Ordering};

/// Where the next block of the arena starts. Blocks are four bytes apart, as
/// a type of alignment four would be.
static NEXT: AtomicUsize = AtomicUsize::new(0x1000);

/// An owning pointer to a block of a pretended arena. `K` only tells the
/// types apart.
#[derive(Debug)]
struct Block<const K: usize> {
    addr: usize,
}

impl<const K: usize> Default for Block<K> {
    fn default() -> Self {
        Block { addr: NEXT.fetch_add(4, Ordering::SeqCst) }
    }
}

impl<const K: usize> Clone for Block<K> {
    fn clone(&self) -> Self {
        Self::default()
    }
}

impl<const K: usize> ErasablePtr for Block<K> {
    fn erased(self) -> Option<usize> {
        Some(self.addr)
    }

    fn erased_is_injective(_: Self, _: Self) {}

    fn erase(this: Self) -> ErasedPtr {
        ErasedPtr::new(this.addr).unwrap()
    }

    fn unerase(word: ErasedPtr) -> Self {
        Block { addr: word.addr() }
    }
}

type BigA = Block<0>;
type BigB = Block<1>;
type BigC = Block<2>;
type BigD = Block<3>;

fn big_union_proof_2() -> Builder2<BigA, BigB> {
    Builder2::new_unchecked()
}

fn big_union_proof_3() -> Builder4<BigA, BigB, BigC> {
    Builder4::new_unchecked()
}

fn big_union_proof_4() -> Builder4<BigA, BigB, BigC, BigD> {
    Builder4::new_unchecked()
}

#[test]
fn smoke() {
    let _ = big_union_proof_2().a(Default::default());
    let _ = big_union_proof_2().b(Default::default());
    let _ = big_union_proof_3().a(Default::default());
    let _ = big_union_proof_3().b(Default::default());
    let _ = big_union_proof_3().c(Default::default());
    let _ = big_union_proof_4().a(Default::default());
    let _ = big_union_proof_4().b(Default::default());
    let _ = big_union_proof_4().c(Default::default());
    let _ = big_union_proof_4().d(Default::default());
}

#[test]
fn smoke2() {
    let a = big_union_proof_2().a(Default::default());
    let b = big_union_proof_2().b(Default::default());
    assert!(a.is_a());
    assert!(b.is_b());
    assert!(a.clone_a().is_some());
    assert!(b.clone_b().is_some());
    a.with_a(|a: &BigA| println!("{:?}", a)).unwrap();
    b.with_b(|b: &BigB| println!("{:?}", b)).unwrap();
    a.unpack().pack(big_union_proof_2()).into_a().unwrap();
    b.unpack().pack(big_union_proof_2()).into_b().unwrap();
}

#[test]
fn smoke3() {
    let a = big_union_proof_3().a(Default::default());
    let b = big_union_proof_3().b(Default::default());
    let c = big_union_proof_3().c(Default::default());
    assert!(a.is_a());
    assert!(b.is_b());
    assert!(c.is_c());
    assert!(a.clone_a().is_some());
    assert!(b.clone_b().is_some());
    assert!(c.clone_c().is_some());
    a.with_a(|a: &BigA| println!("{:?}", a)).unwrap();
    b.with_b(|b: &BigB| println!("{:?}", b)).unwrap();
    c.with_c(|c: &BigC| println!("{:?}", c)).unwrap();
    a.unpack().pack(big_union_proof_3()).into_a().unwrap();
    b.unpack().pack(big_union_proof_3()).into_b().unwrap();
    c.unpack().pack(big_union_proof_3()).into_c().unwrap();
}

#[test]
fn smoke4() {
    let a = big_union_proof_4().a(Default::default());
    let b = big_union_proof_4().b(Default::default());
    let c = big_union_proof_4().c(Default::default());
    let d = big_union_proof_4().d(Default::default());
    assert!(a.is_a());
    assert!(b.is_b());
    assert!(c.is_c());
    assert!(d.is_d());
    assert!(a.clone_a().is_some());
    assert!(b.clone_b().is_some());
    assert!(c.clone_c().is_some());
    assert!(d.clone_d().is_some());
    a.with_a(|a: &BigA| println!("{:?}", a)).unwrap();
    b.with_b(|b: &BigB| println!("{:?}", b)).unwrap();
    c.with_c(|c: &BigC| println!("{:?}", c)).unwrap();
    d.with_d(|d: &BigD| println!("{:?}", d)).unwrap();
    a.unpack().pack(big_union_proof_4()).into_a().unwrap();
    b.unpack().pack(big_union_proof_4()).into_b().unwrap();
    c.unpack().pack(big_union_proof_4()).into_c().unwrap();
    d.unpack().pack(big_union_proof_4()).into_d().unwrap();
}
