//! Pointer unions over the owning pointers of a small arena.

use pointer_utils::{
    Builder16, Builder2, Builder8, Enum16, Enum2, Enum4, Enum8, ErasablePtr, ErasedPtr, Thin,
    Union16, Union2, Union4, Union8,
};
use std::collections::hash_map::DefaultHasher;
use std::hash::{Hash, Hasher};
use std::sync::Mutex;

/// The cells of the arena: the text of each cell that is alive, and the kind
/// of the pointer that owns it.
static CELLS: Mutex<Vec<Option<(usize, String)>>> = Mutex::new(Vec::new());

/// An owning pointer to a cell of the arena.
///
/// The cells are sixteen bytes apart, and a pointer of skew `SKEW` points
/// `SKEW` bytes into its cell. `K` tells the kinds of pointers apart, so that
/// each test can count its own.
struct Owned<const K: usize, const SKEW: usize> {
    addr: usize,
}

impl<const K: usize, const SKEW: usize> Owned<K, SKEW> {
    fn new(text: &str) -> Self {
        let mut cells = CELLS.lock().unwrap();
        cells.push(Some((K, text.to_string())));
        Owned { addr: 16 * cells.len() + SKEW }
    }

    fn index(&self) -> usize {
        (self.addr - SKEW) / 16 - 1
    }

    fn text(&self) -> String {
        let cells = CELLS.lock().unwrap();
        cells[self.index()].as_ref().expect("the cell was freed").1.clone()
    }

    /// How many cells pointers of this kind own right now.
    fn alive() -> usize {
        let cells = CELLS.lock().unwrap();
        cells.iter().filter(|cell| matches!(cell, Some((kind, _)) if *kind == K)).count()
    }
}

impl<const K: usize, const SKEW: usize> Drop for Owned<K, SKEW> {
    fn drop(&mut self) {
        let mut cells = CELLS.lock().unwrap();
        let index = self.index();
        let freed = cells[index].take();
        drop(cells);
        assert!(freed.is_some(), "a cell was freed twice");
    }
}

impl<const K: usize, const SKEW: usize> Clone for Owned<K, SKEW> {
    fn clone(&self) -> Self {
        Self::new(&self.text())
    }
}

impl<const K: usize, const SKEW: usize> PartialEq for Owned<K, SKEW> {
    fn eq(&self, other: &Self) -> bool {
        self.text() == other.text()
    }
}

impl<const K: usize, const SKEW: usize> Eq for Owned<K, SKEW> {}

impl<const K: usize, const SKEW: usize> Hash for Owned<K, SKEW> {
    fn hash<H: Hasher>(&self, state: &mut H) {
        self.text().hash(state)
    }
}

impl<const K: usize, const SKEW: usize> std::fmt::Debug for Owned<K, SKEW> {
    fn fmt(&self, f: &mut std::fmt::Formatter<'_>) -> std::fmt::Result {
        f.debug_tuple("Owned").field(&self.text()).finish()
    }
}

impl<const K: usize, const SKEW: usize> ErasablePtr for Owned<K, SKEW> {
    fn erased(self) -> Option<usize> {
        let addr = self.addr;
        std::mem::forget(self);
        Some(addr)
    }

    fn erased_is_injective(a: Self, b: Self) {
        std::mem::forget(a);
        std::mem::forget(b);
    }

    fn erase(this: Self) -> ErasedPtr {
        let addr = this.addr;
        std::mem::forget(this);
        ErasedPtr::new(addr).unwrap()
    }

    fn unerase(word: ErasedPtr) -> Self {
        Owned { addr: word.addr() }
    }
}

/// A pointer that owns nothing and can be copied: an address and no more.
#[derive(Clone, Copy, Debug, PartialEq, Eq, Hash)]
struct Plain<const SKEW: usize> {
    addr: usize,
}

impl<const SKEW: usize> Plain<SKEW> {
    fn new(n: usize) -> Self {
        Plain { addr: 16 * n + SKEW }
    }
}

impl<const SKEW: usize> ErasablePtr for Plain<SKEW> {
    fn erased(self) -> Option<usize> {
        Some(self.addr)
    }

    fn erased_is_injective(_: Self, _: Self) {}

    fn erase(this: Self) -> ErasedPtr {
        ErasedPtr::new(this.addr).unwrap()
    }

    fn unerase(word: ErasedPtr) -> Self {
        Plain { addr: word.addr() }
    }
}

fn hash_of<T: Hash>(value: &T) -> u64 {
    let mut state = DefaultHasher::new();
    value.hash(&mut state);
    state.finish()
}

#[test]
fn round_trip_is_bit_identical() {
    type A = Owned<100, 0>;
    type B = Owned<101, 0>;
    let builder: Builder2<A, B> = Builder2::new_unchecked();

    let first = builder.a(A::new("a"));
    let word = ErasablePtr::erase(first);
    let first: Union2<A, B> = ErasablePtr::unerase(word);
    let again = first.unpack().pack(builder);
    assert_eq!(ErasablePtr::erase(again).addr(), word.addr());
    drop::<Union2<A, B>>(ErasablePtr::unerase(word));

    let second = builder.b(B::new("b"));
    let word = ErasablePtr::erase(second);
    assert_eq!(word.addr() & 1, 1);
    let second: Union2<A, B> = ErasablePtr::unerase(word);
    let again = second.unpack().try_pack().unwrap();
    assert_eq!(ErasablePtr::erase(again).addr(), word.addr());
    drop::<Union2<A, B>>(ErasablePtr::unerase(word));

    assert_eq!(A::alive(), 0);
    assert_eq!(B::alive(), 0);
}

#[test]
fn the_word_is_the_address_with_the_tag() {
    type P = Plain<0>;
    let builder: Builder16<P, P, P, P, P, P, P, P, P, P, P, P, P, P, P, P> =
        Builder16::new_unchecked();
    let p = Plain::new(7);
    assert_eq!(ErasablePtr::erase(builder.a(p)).addr(), 16 * 7);
    assert_eq!(ErasablePtr::erase(builder.b(p)).addr(), 16 * 7 + 1);
    assert_eq!(ErasablePtr::erase(builder.c(p)).addr(), 16 * 7 + 2);
    assert_eq!(ErasablePtr::erase(builder.h(p)).addr(), 16 * 7 + 7);
    assert_eq!(ErasablePtr::erase(builder.i(p)).addr(), 16 * 7 + 8);
    assert_eq!(ErasablePtr::erase(builder.p(p)).addr(), 16 * 7 + 15);
    assert_eq!(builder.k(p).as_untagged_ptr().addr(), 16 * 7);
    assert_eq!(builder.a(p).as_untagged_ptr().addr(), 16 * 7);
}

#[test]
fn exactly_one_variant_is_active() {
    type P = Plain<0>;
    let p = Plain::new(3);
    let made: Vec<Union16<P, P, P, P, P, P, P, P, P, P, P, P, P, P, P, P>> = vec![
        Union16::new_a(p).unwrap(),
        Union16::new_b(p).unwrap(),
        Union16::new_c(p).unwrap(),
        Union16::new_d(p).unwrap(),
        Union16::new_e(p).unwrap(),
        Union16::new_f(p).unwrap(),
        Union16::new_g(p).unwrap(),
        Union16::new_h(p).unwrap(),
        Union16::new_i(p).unwrap(),
        Union16::new_j(p).unwrap(),
        Union16::new_k(p).unwrap(),
        Union16::new_l(p).unwrap(),
        Union16::new_m(p).unwrap(),
        Union16::new_n(p).unwrap(),
        Union16::new_o(p).unwrap(),
        Union16::new_p(p).unwrap(),
    ];
    for (at, u) in made.iter().enumerate() {
        let is = [
            u.is_a(),
            u.is_b(),
            u.is_c(),
            u.is_d(),
            u.is_e(),
            u.is_f(),
            u.is_g(),
            u.is_h(),
            u.is_i(),
            u.is_j(),
            u.is_k(),
            u.is_l(),
            u.is_m(),
            u.is_n(),
            u.is_o(),
            u.is_p(),
        ];
        for (variant, active) in is.iter().enumerate() {
            assert_eq!(*active, variant == at);
        }
    }
    assert!(matches!(made[0].copy_a(), Some(q) if q == p));
    assert!(made[0].copy_b().is_none());
    assert!(matches!(made[15].copy_p(), Some(q) if q == p));
    assert!(made[15].copy_a().is_none());
    let unpacked: Vec<_> = made.into_iter().map(|u| u.unpack()).collect();
    assert!(matches!(unpacked[0], Enum16::A(q) if q == p));
    assert!(matches!(unpacked[4], Enum16::E(q) if q == p));
    assert!(matches!(unpacked[9], Enum16::J(q) if q == p));
    assert!(matches!(unpacked[15], Enum16::P(q) if q == p));
}

#[test]
fn checked_construction_takes_multiples_only() {
    // two
    assert!(Union2::<Plain<0>, Plain<0>>::new_a(Plain::new(1)).is_ok());
    assert!(Union2::<Plain<2>, Plain<0>>::new_a(Plain::new(1)).is_ok());
    assert!(Union2::<Plain<1>, Plain<0>>::new_a(Plain::new(1)).is_err());
    assert!(Union2::<Plain<0>, Plain<1>>::new_b(Plain::new(1)).is_err());
    // four
    assert!(Union4::<Plain<4>, Plain<0>, Plain<0>>::new_a(Plain::new(1)).is_ok());
    assert!(Union4::<Plain<2>, Plain<0>, Plain<0>>::new_a(Plain::new(1)).is_err());
    assert!(Union4::<Plain<0>, Plain<0>, Plain<6>>::new_c(Plain::new(1)).is_err());
    // eight
    assert!(Union8::<Plain<8>, Plain<0>, Plain<0>, Plain<0>, Plain<0>>::new_a(Plain::new(1)).is_ok());
    assert!(Union8::<Plain<4>, Plain<0>, Plain<0>, Plain<0>, Plain<0>>::new_a(Plain::new(1)).is_err());
    assert!(Union8::<Plain<0>, Plain<0>, Plain<0>, Plain<0>, Plain<12>>::new_e(Plain::new(1)).is_err());
    // sixteen
    type Z = Plain<0>;
    assert!(Union16::<Z, Z, Z, Z, Z, Z, Z, Z, Z>::new_i(Plain::new(1)).is_ok());
    assert!(Union16::<Plain<8>, Z, Z, Z, Z, Z, Z, Z, Z>::new_a(Plain::new(1)).is_err());
    assert!(Union16::<Z, Z, Z, Z, Z, Z, Z, Z, Plain<15>>::new_i(Plain::new(1)).is_err());
}

#[test]
fn a_refused_pointer_comes_back_unchanged() {
    type Skewed = Owned<110, 1>;
    type B = Owned<111, 0>;
    let p = Skewed::new("kept");
    let addr = p.addr;
    let back = Union2::<Skewed, B>::new_a(p).unwrap_err();
    assert_eq!(back.addr, addr);
    assert_eq!(back.text(), "kept");
    assert_eq!(Skewed::alive(), 1);
    let back = Enum2::<Skewed, B>::A(back).try_pack().unwrap_err();
    assert!(matches!(&back, Enum2::A(p) if p.addr == addr));
    assert_eq!(Skewed::alive(), 1);
    drop(back);
    assert_eq!(Skewed::alive(), 0);
}

#[test]
fn dropping_a_union_drops_its_pointer_once() {
    type A = Owned<120, 0>;
    type B = Owned<121, 0>;
    type C = Owned<122, 0>;
    assert_eq!(A::alive() + B::alive() + C::alive(), 0);
    let a = Union4::<A, B, C>::new_a(A::new("a")).unwrap();
    let b = Union4::<A, B, C>::new_b(B::new("b")).unwrap();
    let c = Union4::<A, B, C>::new_c(C::new("c")).unwrap();
    assert_eq!((A::alive(), B::alive(), C::alive()), (1, 1, 1));
    drop(b);
    assert_eq!((A::alive(), B::alive(), C::alive()), (1, 0, 1));
    drop(a);
    drop(c);
    assert_eq!((A::alive(), B::alive(), C::alive()), (0, 0, 0));
}

#[test]
fn taking_the_pointer_out_does_not_drop_it() {
    type A = Owned<130, 0>;
    type B = Owned<131, 0>;
    let u = Union2::<A, B>::new_a(A::new("mine")).unwrap();
    let u = u.into_b().unwrap_err();
    assert!(u.is_a());
    assert_eq!(A::alive(), 1);
    let a = u.into_a().unwrap();
    assert_eq!(A::alive(), 1);
    assert_eq!(a.text(), "mine");
    drop(a);
    assert_eq!(A::alive(), 0);

    let u = Union2::<A, B>::new_b(B::new("yours")).unwrap();
    match u.unpack() {
        Enum2::A(_) => panic!("the union was made of a B"),
        Enum2::B(b) => {
            assert_eq!(B::alive(), 1);
            assert_eq!(b.text(), "yours");
        },
    }
    assert_eq!(B::alive(), 0);
}

#[test]
fn borrowing_does_not_drop() {
    type A = Owned<140, 0>;
    type B = Owned<141, 0>;
    let u = Union2::<A, B>::new_a(A::new("seen")).unwrap();
    assert_eq!(u.with_a(|a| a.text()), Some("seen".to_string()));
    assert_eq!(u.with_b(|b| b.text()), None);
    assert_eq!(u.with_a(|a| a.text().len()), Some(4));
    assert_eq!(A::alive(), 1);
    let twin = u.clone_a().unwrap();
    assert!(u.clone_b().is_none());
    assert_eq!(twin.text(), "seen");
    assert_eq!(A::alive(), 2);
    drop(twin);
    assert_eq!(A::alive(), 1);
    drop(u);
    assert_eq!(A::alive(), 0);
}

#[test]
fn identity_and_value_equality_differ() {
    type A = Owned<150, 0>;
    type B = Owned<151, 0>;
    let one = Union2::<A, B>::new_a(A::new("same")).unwrap();
    let two = Union2::<A, B>::new_a(A::new("same")).unwrap();
    let other = Union2::<A, B>::new_a(A::new("other")).unwrap();
    let b = Union2::<A, B>::new_b(B::new("same")).unwrap();
    assert!(one.ptr_eq(&one));
    assert!(two.ptr_eq(&two));
    assert!(!one.ptr_eq(&two));
    assert!(!two.ptr_eq(&one));
    assert!(one == two);
    assert!(one != other);
    assert!(one != b);
    assert!(b == b);
    assert_eq!(hash_of(&one), hash_of(&two));
    assert_eq!(hash_of(&one), hash_of(&"same".to_string()));
    assert_ne!(hash_of(&one), hash_of(&other));
}

#[test]
fn the_same_address_in_two_variants_is_two_pointers() {
    type P = Plain<0>;
    let p = Plain::new(5);
    let a = Union2::<P, P>::new_a(p).unwrap();
    let b = Union2::<P, P>::new_b(p).unwrap();
    assert!(!a.ptr_eq(&b));
    assert!(a != b);
    assert!(a.ptr_eq(&Union2::<P, P>::new_a(p).unwrap()));
    assert!(a == Union2::<P, P>::new_a(p).unwrap());
}

#[test]
fn scenario_eight_aligned_pointers() {
    type P<const K: usize> = Owned<K, 8>;
    type U = Union8<P<160>, P<161>, P<162>, P<163>, P<164>, P<165>, P<166>, P<167>>;
    let p = P::<160>::new("payload");
    let addr = p.addr;
    assert_eq!(addr % 8, 0);
    let u = U::new_a(p).unwrap();
    assert!(u.is_a());
    assert!(!u.is_b() && !u.is_c() && !u.is_d() && !u.is_e() && !u.is_f() && !u.is_g() && !u.is_h());
    let twin = u.clone();
    assert!(twin.is_a());
    assert!(twin == u);
    assert!(!twin.ptr_eq(&u));
    assert_eq!(P::<160>::alive(), 2);
    let back = u.into_a().unwrap();
    assert_eq!(back.addr, addr);
    assert_eq!(back.text(), "payload");
    drop(back);
    drop(twin);
    assert_eq!(P::<160>::alive(), 0);

    let h = U::new_h(P::<167>::new("last")).unwrap();
    assert!(h.is_h());
    let twin = h.try_clone().unwrap();
    assert!(twin.is_h());
    assert_eq!(twin.with_h(|p| p.text()), Some("last".to_string()));
    assert_eq!(h.as_untagged_ptr().addr() % 8, 0);
    assert_eq!(ErasablePtr::erase(twin).addr() % 8, 7);
}

#[test]
fn scenario_four_aligned_pointer_in_a_union_of_eight() {
    type Skewed = Owned<170, 4>;
    type Z = Owned<171, 0>;
    let p = Skewed::new("p");
    let addr = p.addr;
    assert_eq!(addr & 0b111, 0b100);
    let back = Union8::<Skewed, Z, Z, Z, Z>::new_a(p).unwrap_err();
    assert_eq!(back.addr, addr);
    assert_eq!(Skewed::alive(), 1);
    // the same pointer fits a union of four
    let u = Union4::<Skewed, Z, Z>::new_a(back).unwrap();
    assert!(u.is_a());
    drop(u);
    assert_eq!(Skewed::alive(), 0);
}

/// A pointer whose clones are one byte further on each time.
#[derive(Debug)]
struct Creeping {
    addr: usize,
}

impl Clone for Creeping {
    fn clone(&self) -> Self {
        Creeping { addr: self.addr + 1 }
    }
}

impl ErasablePtr for Creeping {
    fn erased(self) -> Option<usize> {
        Some(self.addr)
    }

    fn erased_is_injective(_: Self, _: Self) {}

    fn erase(this: Self) -> ErasedPtr {
        ErasedPtr::new(this.addr).unwrap()
    }

    fn unerase(word: ErasedPtr) -> Self {
        Creeping { addr: word.addr() }
    }
}

#[test]
fn a_clone_that_is_not_aligned_makes_no_union() {
    type Z = Plain<0>;
    let u = Union8::<Creeping, Z, Z, Z, Z, Z, Z, Z>::new_a(Creeping { addr: 8 }).unwrap();
    assert!(u.try_clone().is_none());
    assert_eq!(u.clone_a().unwrap().addr, 9);
    let u = Union8::<Creeping, Z, Z, Z, Z, Z, Z, Z>::new_a(Creeping { addr: 15 });
    assert!(u.is_err());
    let u = Union2::<Z, Creeping>::new_b(Creeping { addr: 8 }).unwrap();
    assert!(u.try_clone().is_none());
}

#[test]
fn debug_names_the_variant() {
    type A = Owned<180, 0>;
    type B = Owned<181, 0>;
    let a = Union2::<A, B>::new_a(A::new("x")).unwrap();
    let b = Union2::<A, B>::new_b(B::new("y")).unwrap();
    assert_eq!(format!("{:?}", a), "A(Owned(\"x\"))");
    assert_eq!(format!("{:?}", b), "B(Owned(\"y\"))");
    let builder: Builder2<A, B> = Builder2::new_unchecked();
    let text = format!("{:?}", builder);
    assert!(text.starts_with("Builder2("));
    assert!(text.contains("Enum2"));
    assert!(text.contains("Owned"));
}

#[test]
fn packing_an_enum() {
    type A = Owned<190, 0>;
    type B = Owned<191, 8>;
    type C = Owned<192, 0>;
    type D = Owned<193, 0>;
    let u = Enum4::<A, B, C, D>::C(C::new("c")).try_pack().unwrap();
    assert!(u.is_c());
    assert_eq!(u.with_c(|c| c.text()), Some("c".to_string()));
    drop(u);
    let u = Enum4::<A, B, C, D>::B(B::new("b")).pack_unchecked();
    assert!(u.is_b());
    assert!(matches!(u.unpack(), Enum4::B(b) if b.text() == "b"));
    let u = Enum8::<A, B, C, D, A, B, C, D>::F(B::new("f")).try_pack().unwrap();
    assert!(u.is_f());
    assert!(!u.is_b());
    drop(u);
    let builder: Builder8<A, B, C, D, A> = Builder8::new_unchecked();
    let u = Enum8::E(A::new("e")).pack(builder);
    assert!(u.is_e());
    assert!(!u.is_a());
    drop(u);
    assert_eq!(A::alive() + B::alive() + C::alive() + D::alive(), 0);
}

#[test]
fn a_union_is_a_pointer_itself() {
    type A = Owned<200, 0>;
    type B = Owned<201, 0>;
    let u = Union2::<A, B>::new_b(B::new("inside")).unwrap();
    let thin: Thin<Union2<A, B>> = Thin::from(u);
    assert!(Thin::with(&thin, |u| u.is_b()));
    assert_eq!(Thin::with(&thin, |u| u.with_b(|b| b.text())), Some("inside".to_string()));
    assert_eq!(B::alive(), 1);
    let u = Thin::into_inner(thin);
    assert!(u.is_b());
    drop(u);
    assert_eq!(B::alive(), 0);

    // a union of unions: the inner union is odd, so it only fits where no
    // bit is needed for it
    let inner = Union2::<A, B>::new_a(A::new("deep")).unwrap();
    let outer = Union2::<Union2<A, B>, Plain<0>>::new_a(inner).unwrap();
    assert_eq!(outer.with_a(|inner| inner.with_a(|a| a.text())), Some(Some("deep".to_string())));
    drop(outer);
    let inner = Union2::<A, B>::new_b(B::new("odd")).unwrap();
    let back = Union2::<Union2<A, B>, Plain<0>>::new_a(inner).unwrap_err();
    assert!(back.is_b());
    drop(back);
    assert_eq!(A::alive() + B::alive(), 0);
}

fn is_send_and_sync<T: Send + Sync>() -> bool {
    true
}

#[test]
fn a_union_is_as_thread_safe_as_its_pointers() {
    assert!(is_send_and_sync::<Plain<0>>());
    assert!(is_send_and_sync::<Union2<Plain<0>, Plain<0>>>());
    assert!(is_send_and_sync::<Union4<Plain<0>, Plain<0>, Plain<0>>>());
    assert!(is_send_and_sync::<Union8<Plain<0>, Plain<0>, Plain<0>, Plain<0>, Plain<0>>>());
    assert!(is_send_and_sync::<Builder2<Plain<0>, Plain<0>>>());
    assert!(is_send_and_sync::<Thin<Plain<0>>>());
    assert_eq!(std::mem::size_of::<Union2<Plain<0>, Plain<0>>>(), std::mem::size_of::<usize>());
    assert_eq!(std::mem::size_of::<Union16<
        Plain<0>, Plain<0>, Plain<0>, Plain<0>, Plain<0>, Plain<0>, Plain<0>, Plain<0>, Plain<0>,
    >>(), std::mem::size_of::<usize>());
    assert_eq!(std::mem::size_of::<Thin<Owned<210, 0>>>(), std::mem::size_of::<usize>());
    assert_eq!(std::mem::size_of::<Builder8<Plain<0>, Plain<0>, Plain<0>, Plain<0>, Plain<0>>>(), 0);
}
