//! These tests don't really assert anything, they just exercise the API.

use pointer_utils::{ErasablePtr, ErasedPtr, Thin};
use std::collections::hash_map::DefaultHasher;
use std::hash::{Hash, Hasher};
use std::sync::Mutex;

/// The cells of the arena, each with its kind and its numbers.
static CELLS: Mutex<Vec<Option<(usize, [u128; 4])>>> = Mutex::new(Vec::new());

/// An owning pointer to a cell of the arena. `K` tells the kinds of pointers
/// apart, so that each test can count its own.
#[derive(Debug)]
struct Boxed<const K: usize> {
    addr: usize,
}

impl<const K: usize> Boxed<K> {
    fn index(&self) -> usize {
        self.addr / 16 - 1
    }

    fn get(&self) -> [u128; 4] {
        CELLS.lock().unwrap()[self.index()].expect("the cell was freed").1
    }

    fn set(&mut self, at: usize, value: u128) {
        let mut cells = CELLS.lock().unwrap();
        cells[self.index()].as_mut().expect("the cell was freed").1[at] = value;
    }

    fn alive() -> usize {
        let cells = CELLS.lock().unwrap();
        cells.iter().filter(|cell| matches!(cell, Some((kind, _)) if *kind == K)).count()
    }
}

impl<const K: usize> Default for Boxed<K> {
    fn default() -> Self {
        let mut cells = CELLS.lock().unwrap();
        cells.push(Some((K, [0; 4])));
        Boxed { addr: 16 * cells.len() }
    }
}

impl<const K: usize> Drop for Boxed<K> {
    fn drop(&mut self) {
        let mut cells = CELLS.lock().unwrap();
        let index = self.index();
        let freed = cells[index].take();
        drop(cells);
        assert!(freed.is_some(), "a cell was freed twice");
    }
}

impl<const K: usize> Clone for Boxed<K> {
    fn clone(&self) -> Self {
        let numbers = self.get();
        let mut twin = Self::default();
        for (at, number) in numbers.iter().enumerate() {
            twin.set(at, *number);
        }
        twin
    }
}

impl<const K: usize> PartialEq for Boxed<K> {
    fn eq(&self, other: &Self) -> bool {
        self.get() == other.get()
    }
}

impl<const K: usize> PartialOrd for Boxed<K> {
    fn partial_cmp(&self, other: &Self) -> Option<std::cmp::Ordering> {
        self.get().partial_cmp(&other.get())
    }
}

impl<const K: usize> Hash for Boxed<K> {
    fn hash<H: Hasher>(&self, state: &mut H) {
        self.get().hash(state)
    }
}

impl<const K: usize> ErasablePtr for Boxed<K> {
    fn erased(self) -> Option<usize> {
        let addr = self.addr;
        std::mem::forget(self);
        Some(addr)
    }

    fn erased_is_injective(a: Self, b: Self) {
        std::mem::forget(a);
        std::mem::forget(b);
    }

    fn erase(this: Self) -> ErasedPtr {
        let addr = this.addr;
        std::mem::forget(this);
        ErasedPtr::new(addr).unwrap()
    }

    fn unerase(word: ErasedPtr) -> Self {
        Boxed { addr: word.addr() }
    }
}

fn hash_of<T: Hash>(value: &T) -> u64 {
    let mut state = DefaultHasher::new();
    value.hash(&mut state);
    state.finish()
}

#[test]
fn erasing() {
    let boxed: Boxed<0> = Default::default();
    let ptr = boxed.addr;
    let erased: ErasedPtr = ErasablePtr::erase(boxed);
    assert_eq!(erased.addr(), ptr);
    let boxed: Boxed<0> = ErasablePtr::unerase(erased);
    assert_eq!(boxed.addr, ptr);
}

#[test]
fn thinning() {
    let boxed: Boxed<1> = Default::default();
    let mut thin: Thin<Boxed<1>> = boxed.into();
    Thin::with_mut(&mut thin, |thin| *thin = Default::default());
    assert_eq!(Boxed::<1>::alive(), 1);
    let boxed = Thin::into_inner(thin);
    assert_eq!(Boxed::<1>::alive(), 1);
    drop(boxed);
    assert_eq!(Boxed::<1>::alive(), 0);
}

#[test]
fn with_fn() {
    let boxed: Boxed<2> = Default::default();
    let thin = Thin::from(boxed);
    Thin::with(&thin, |bigbox: &Boxed<2>| {
        assert_eq!(*bigbox, Default::default());
    });
    assert_eq!(Thin::with(&thin, |bigbox| bigbox.get()), [0; 4]);
    // drop it, otherwise we would leak memory here
    drop(thin);
    assert_eq!(Boxed::<2>::alive(), 0);
}

#[test]
fn with_mut_fn() {
    let boxed: Boxed<3> = Default::default();
    let mut thin = Thin::from(boxed);
    Thin::with_mut(&mut thin, |bigbox: &mut Boxed<3>| {
        bigbox.set(0, 123456);
        assert_ne!(*bigbox, Default::default());
    });
    assert_eq!(Thin::with(&thin, |bigbox| bigbox.get()[0]), 123456);
    drop(thin);
    assert_eq!(Boxed::<3>::alive(), 0);
}

#[test]
fn with_mut_fn_replacethis() {
    let boxed: Boxed<4> = Default::default();
    let mut thin = Thin::from(boxed);
    let e1 = Thin::with(&thin, |bigbox| bigbox.addr);
    Thin::with_mut(&mut thin, |bigbox: &mut Boxed<4>| {
        let mut newboxed: Boxed<4> = Default::default();
        newboxed.set(0, 123456);
        *bigbox = newboxed;
        assert_ne!(*bigbox, Default::default());
    });
    let e2 = Thin::with(&thin, |bigbox| bigbox.addr);
    assert_ne!(e1, e2);
    assert_eq!(Thin::with(&thin, |bigbox| bigbox.get()[0]), 123456);
    assert_eq!(Boxed::<4>::alive(), 1);
    drop(thin);
    assert_eq!(Boxed::<4>::alive(), 0);
}

#[test]
fn with_mut_returns_what_the_closure_returns() {
    let mut thin = Thin::from(Boxed::<5>::default());
    let was = Thin::with_mut(&mut thin, |bigbox| {
        let was = bigbox.get()[1];
        bigbox.set(1, 7);
        was
    });
    assert_eq!(was, 0);
    assert_eq!(Thin::with(&thin, |bigbox| bigbox.get()), [0, 7, 0, 0]);
}

#[test]
fn a_thin_pointer_clones_and_compares_as_its_pointer() {
    let mut thin = Thin::from(Boxed::<6>::default());
    Thin::with_mut(&mut thin, |bigbox| bigbox.set(2, 9));
    let twin = thin.clone();
    assert_eq!(Boxed::<6>::alive(), 2);
    assert!(thin == twin);
    assert_ne!(Thin::with(&thin, |b| b.addr), Thin::with(&twin, |b| b.addr));
    assert_eq!(hash_of(&thin), hash_of(&twin));
    assert_eq!(hash_of(&thin), hash_of(&[0u128, 0, 9, 0]));
    let other = Thin::from(Boxed::<6>::default());
    assert!(thin != other);
    assert_eq!(format!("{:?}", thin), format!("Boxed {{ addr: {} }}", Thin::with(&thin, |b| b.addr)));
    drop(thin);
    drop(twin);
    drop(other);
    assert_eq!(Boxed::<6>::alive(), 0);
}

#[test]
fn a_thin_pointer_orders_as_its_pointer() {
    let mut small = Thin::from(Boxed::<7>::default());
    let mut large = Thin::from(Boxed::<7>::default());
    Thin::with_mut(&mut small, |bigbox| bigbox.set(0, 1));
    Thin::with_mut(&mut large, |bigbox| bigbox.set(0, 2));
    assert!(small < large);
    assert!(large > small);
    assert!(small <= small);
    assert_eq!(small.partial_cmp(&large), Some(std::cmp::Ordering::Less));
    assert_eq!(large.partial_cmp(&small), Some(std::cmp::Ordering::Greater));
    assert_eq!(small.partial_cmp(&small), Some(std::cmp::Ordering::Equal));
}
