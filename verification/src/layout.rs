//! Memory layouts: the size and alignment of a block of memory, and the
//! arithmetic that lays the fields of a `repr(C)` structure out in one block.

use vstd::prelude::*;
use vstd::arithmetic::div_mod::{
    lemma_div_by_multiple, lemma_fundamental_div_mod, lemma_mod_multiples_basic,
};
use vstd::arithmetic::power2::is_pow2;
use vstd::layout::layout_for_type_is_valid;

verus! {

/// The error of a layout computation: the block asked for cannot exist.
#[derive(Clone, Copy, Debug, PartialEq, Eq)]
pub struct LayoutError;

/// Whether `n` is a power of two.
pub open spec fn is_power_of_two(n: usize) -> bool {
    n != 0 && n & ((n - 1) as usize) == 0
}

/// Whether `n` is a multiple of the power of two `align`.
pub open spec fn is_aligned(n: usize, align: usize) -> bool {
    n & ((align - 1) as usize) == 0
}

/// Whether a block of `size` bytes aligned to `align` can exist: the
/// alignment is a power of two, and the size, rounded up to the alignment,
/// does not go beyond `isize::MAX`.
pub open spec fn is_layout(size: int, align: usize) -> bool {
    is_power_of_two(align) && 0 <= size <= isize::MAX - (align - 1)
}

/// Whether `r` is `len` rounded up to `align`: the one multiple of `align`
/// that is at least `len` and less than `len + align`.
pub open spec fn is_rounding(len: usize, align: usize, r: usize) -> bool {
    len <= r && r - len < align && is_aligned(r, align)
}

/// `len` rounded up to the next multiple of the power of two `align`.
pub open spec fn rounded_up(len: usize, align: usize) -> usize {
    choose|r: usize| is_rounding(len, align, r)
}

/// The larger of two alignments.
pub open spec fn max_align(a: usize, b: usize) -> usize {
    if a >= b {
        a
    } else {
        b
    }
}

/// Clearing the low bits of `len + (align - 1)` rounds `len` up to `align`.
proof fn lemma_round_up_bits(len: usize, align: usize)
    by (bit_vector)
    requires
        align != 0,
        align & ((align - 1) as usize) == 0,
        len + (align - 1) == ((len + (align - 1)) as usize),
    ensures
        ((len + (align - 1)) as usize) & !((align - 1) as usize) >= len,
        (((len + (align - 1)) as usize) & !((align - 1) as usize)) - len < align,
        (((len + (align - 1)) as usize) & !((align - 1) as usize)) & ((align - 1) as usize) == 0,
{
}

/// There is one multiple of `align` among `align` numbers in a row.
proof fn lemma_one_multiple(len: usize, align: usize, x: usize, y: usize)
    by (bit_vector)
    requires
        align != 0,
        align & ((align - 1) as usize) == 0,
        len <= x,
        len <= y,
        x - len < align,
        y - len < align,
        x & ((align - 1) as usize) == 0,
        y & ((align - 1) as usize) == 0,
    ensures
        x == y,
{
}

/// Twice a power of two, less two, still fits the machine word.
proof fn lemma_power_of_two_bits(a: usize)
    by (bit_vector)
    requires
        a != 0,
        a & ((a - 1) as usize) == 0,
    ensures
        ((a - 1) as usize) + ((a - 1) as usize) == ((((a - 1) as usize) + ((a - 1) as usize)) as usize),
{
}

/// A multiple of a power of two that is below a number of the form
/// `2^k - 1` stays below it when rounded up to the next multiple less one.
proof fn lemma_aligned_below_mask(r: usize, align: usize, max: usize)
    by (bit_vector)
    requires
        align != 0,
        align & ((align - 1) as usize) == 0,
        max & ((max + 1) as usize) == 0,
        r & ((align - 1) as usize) == 0,
        r <= max,
        (align - 1) as usize <= max,
    ensures
        r + (align - 1) <= max,
{
}

/// `isize::MAX` is of the form `2^k - 1`.
proof fn lemma_isize_max_is_mask()
    ensures
        (isize::MAX as usize) & (((isize::MAX as usize) + 1) as usize) == 0,
{
    let max = isize::MAX as usize;
    assert(max & ((max + 1) as usize) == 0) by (bit_vector)
        requires
            max == 0x7fff_ffffu64 || max == 0x7fff_ffff_ffff_ffffu64,
    ;
}

/// A size that is a multiple of a power of two and within `isize::MAX` is
/// the size of a block aligned to that power of two.
pub proof fn lemma_aligned_size_is_layout(size: usize, align: usize)
    requires
        is_power_of_two(align),
        is_aligned(size, align),
        size <= isize::MAX,
    ensures
        is_layout(size as int, align),
{
    lemma_power_of_two_bound(align);
    lemma_isize_max_is_mask();
    lemma_aligned_below_mask(size, align, isize::MAX as usize);
}

/// A power of two is at most one more than `isize::MAX`.
pub proof fn lemma_power_of_two_bound(align: usize)
    requires
        is_power_of_two(align),
    ensures
        align - 1 <= isize::MAX,
{
    lemma_power_of_two_bits(align);
}

/// Rounding up has one result: whatever rounds `len` up to `align` is
/// `rounded_up(len, align)`.
pub proof fn lemma_rounded_up(len: usize, align: usize, r: usize)
    requires
        is_power_of_two(align),
        is_rounding(len, align, r),
    ensures
        rounded_up(len, align) == r,
{
    lemma_one_multiple(len, align, r, rounded_up(len, align));
}

/// Twice a power of two is a power of two, and twice a multiple of a power of
/// two is a multiple of twice that power.
proof fn lemma_double_bits(n: usize, x: usize)
    by (bit_vector)
    requires
        n % 2 == 0,
        n / 2 != 0,
        (n / 2) & ((n / 2 - 1) as usize) == 0,
    ensures
        n & ((n - 1) as usize) == 0,
        x % 2 == 0 && (x / 2) & ((n / 2 - 1) as usize) == 0 ==> x & ((n - 1) as usize) == 0,
{
}

/// What an even number divides is even, and its half divides the half of
/// that.
proof fn lemma_halves_divide(n: int, x: int)
    requires
        n >= 2,
        n % 2 == 0,
        x >= 0,
        x % n == 0,
    ensures
        x % 2 == 0,
        (x / 2) % (n / 2) == 0,
{
    let half = n / 2;
    let times = x / n;
    lemma_fundamental_div_mod(x, n);
    lemma_fundamental_div_mod(n, 2);
    assert(x == (half * times) * 2 && half * times >= 0 && x == (times * 2) * half) by (nonlinear_arith)
        requires
            x == n * times,
            n == 2 * half,
            x >= 0,
            n >= 2,
            half >= 1,
    ;
    lemma_mod_multiples_basic(half * times, 2);
    lemma_div_by_multiple(half * times, 2);
    assert(x / 2 == times * half) by (nonlinear_arith)
        requires
            x / 2 == half * times,
    ;
    lemma_mod_multiples_basic(times, half);
}

/// What is a power of two by repeated halving is one by its bits, and what
/// it divides is aligned to it.
proof fn lemma_pow2_is_power_of_two(n: usize, x: usize)
    requires
        is_pow2(n as int),
        x % n == 0,
    ensures
        is_power_of_two(n),
        is_aligned(x, n),
    decreases n,
{
    reveal(is_pow2);
    if n == 1 {
        assert(1usize & ((1usize - 1) as usize) == 0) by (bit_vector);
        assert(x & ((1usize - 1) as usize) == 0) by (bit_vector);
    } else {
        let half = (n / 2) as usize;
        lemma_halves_divide(n as int, x as int);
        lemma_pow2_is_power_of_two(half, (x / 2) as usize);
        lemma_double_bits(n, x);
    }
}

/// The layout of a block of memory: its size in bytes and its alignment.
///
/// The alignment is a power of two, and the size, rounded up to the
/// alignment, does not go beyond `isize::MAX`.
#[derive(Clone, Copy, Debug, PartialEq, Eq, Hash)]
pub struct Layout {
    size: usize,
    align: usize,
}

impl Layout {
    /// The size of the block, in bytes.
    pub closed spec fn spec_size(&self) -> usize {
        self.size
    }

    /// The alignment of the block, in bytes.
    pub closed spec fn spec_align(&self) -> usize {
        self.align
    }

    /// Whether a block of this layout can exist. This holds of every layout
    /// that a program can reach.
    #[verifier::type_invariant]
    pub open spec fn wf(self) -> bool {
        is_layout(self.spec_size() as int, self.spec_align())
    }

    /// Layouts of the same size and alignment are the same.
    pub proof fn lemma_same(self, other: Self)
        requires
            self.spec_size() == other.spec_size(),
            self.spec_align() == other.spec_align(),
        ensures
            self == other,
    {
    }

    /// The layout of a block of `size` bytes aligned to `align`, or an error
    /// where no such block can exist.
    pub fn from_size_align(size: usize, align: usize) -> (r: Result<Layout, LayoutError>)
        ensures
            r is Ok <==> is_layout(size as int, align),
            r matches Ok(layout) ==> layout.spec_size() == size && layout.spec_align() == align,
    {
        if align == 0 || align & (align - 1) != 0 {
            return Err(LayoutError);
        }
        proof {
            lemma_power_of_two_bound(align);
        }
        if size > (isize::MAX as usize) - (align - 1) {
            return Err(LayoutError);
        }
        Ok(Layout { size, align })
    }

    /// The size of the block, in bytes.
    #[verifier::when_used_as_spec(spec_size)]
    pub fn size(&self) -> (r: usize)
        ensures
            r == self.spec_size(),
    {
        self.size
    }

    /// The alignment of the block, in bytes.
    #[verifier::when_used_as_spec(spec_align)]
    pub fn align(&self) -> (r: usize)
        ensures
            r == self.spec_align(),
    {
        self.align
    }

    /// The layout of a value of type `T`.
    pub fn new<T>() -> (r: Layout)
        ensures
            r == Layout::new_spec::<T>(),
            r.spec_size() == core::mem::size_of::<T>(),
            r.spec_align() == core::mem::align_of::<T>(),
    {
        layout_for_type_is_valid::<T>();
        let size: usize = core::mem::size_of::<T>();
        let align: usize = core::mem::align_of::<T>();
        proof {
            lemma_pow2_is_power_of_two(align, size);
            lemma_aligned_size_is_layout(size, align);
        }
        Layout { size, align }
    }

    /// The layout of a value of type `T`.
    pub open spec fn new_spec<T>() -> Layout {
        Layout::with(core::mem::size_of::<T>(), core::mem::align_of::<T>())
    }

    /// The layout of a block of `size` bytes aligned to `align`.
    pub closed spec fn with(size: usize, align: usize) -> Layout {
        Layout { size, align }
    }

    /// The layout of a block of `size` bytes aligned to `align` has that size
    /// and that alignment.
    pub broadcast proof fn lemma_with(size: usize, align: usize)
        ensures
            #![trigger Layout::with(size, align)]
            Layout::with(size, align).spec_size() == size,
            Layout::with(size, align).spec_align() == align,
    {
    }
}

/// The error that a layout computation ends in where the block cannot exist.
pub fn layout_err() -> LayoutError {
    LayoutError
}

/// The amount of padding that must follow a block of layout `this` so that
/// what comes next is aligned to `align`, which must be a power of two.
pub fn layout_padding_needed_for(this: &Layout, align: usize) -> (pad: usize)
    requires
        is_power_of_two(align),
    ensures
        this.size() + pad == rounded_up(this.size(), align),
        is_rounding(this.size(), align, rounded_up(this.size(), align)),
        pad < align,
{
    proof {
        use_type_invariant(this);
        lemma_power_of_two_bound(align);
        lemma_power_of_two_bound(this.align());
    }
    let len: usize = this.size();
    let len_rounded_up: usize = (len + (align - 1)) & !(align - 1);
    proof {
        lemma_round_up_bits(len, align);
        lemma_rounded_up(len, align, len_rounded_up);
    }
    len_rounded_up - len
}

/// The layout `this` with its size rounded up to its alignment, as the
/// size of a structure is.
pub fn pad_layout_to_align(this: &Layout) -> (r: Layout)
    ensures
        r.size() == rounded_up(this.size(), this.align()),
        r.align() == this.align(),
        is_rounding(this.size(), this.align(), r.size()),
{
    proof {
        use_type_invariant(this);
    }
    let pad: usize = layout_padding_needed_for(this, this.align());
    let new_size: usize = this.size() + pad;
    proof {
        lemma_aligned_size_is_layout(new_size, this.align());
    }
    Layout { size: new_size, align: this.align }
}

/// The size of `this` followed by `next`: the size of `this`, the padding
/// that aligns `next`, and the size of `next`.
pub open spec fn extended_size(this: Layout, next: Layout) -> int {
    rounded_up(this.size(), next.align()) + next.size()
}

/// The layout of a block that holds `this` followed by `next`, and the
/// offset of `next` in it. The block has no padding at its end.
///
/// An error where the block would be too large.
pub fn extend_layout(this: &Layout, next: Layout) -> (r: Result<(Layout, usize), LayoutError>)
    ensures
        r is Ok <==> is_layout(extended_size(*this, next), max_align(this.align(), next.align())),
        r matches Ok((layout, offset)) ==> {
            &&& offset == rounded_up(this.size(), next.align())
            &&& is_rounding(this.size(), next.align(), offset)
            &&& layout.size() == extended_size(*this, next)
            &&& layout.align() == max_align(this.align(), next.align())
        },
{
    proof {
        use_type_invariant(this);
        use_type_invariant(&next);
        lemma_power_of_two_bound(this.align());
        lemma_power_of_two_bound(next.align());
    }
    let new_align: usize = if this.align() >= next.align() {
        this.align()
    } else {
        next.align()
    };
    let pad: usize = layout_padding_needed_for(this, next.align());
    let offset: usize = match this.size().checked_add(pad) {
        Some(offset) => offset,
        None => {
            return Err(layout_err());
        },
    };
    let new_size: usize = match offset.checked_add(next.size()) {
        Some(new_size) => new_size,
        None => {
            return Err(layout_err());
        },
    };
    match Layout::from_size_align(new_size, new_align) {
        Ok(layout) => Ok((layout, offset)),
        Err(e) => Err(e),
    }
}

/// Whether `n` blocks of layout `this` in a row, each padded to the
/// alignment, are a block that can exist.
pub open spec fn can_repeat(this: Layout, n: usize) -> bool {
    is_layout(rounded_up(this.size(), this.align()) * n, this.align())
}

/// The layout of `n` blocks of layout `this` in a row, each padded to the
/// alignment.
pub open spec fn repeated(this: Layout, n: usize) -> Layout {
    Layout::with((rounded_up(this.size(), this.align()) * n) as usize, this.align())
}

/// The layout of `n` blocks of layout `this` in a row, each padded to the
/// alignment, and the size of one padded block.
///
/// An error where the whole would be too large.
pub fn repeat_layout(this: &Layout, n: usize) -> (r: Result<(Layout, usize), LayoutError>)
    ensures
        r is Ok <==> can_repeat(*this, n),
        r matches Ok((layout, stride)) ==> {
            &&& stride == rounded_up(this.size(), this.align())
            &&& layout == repeated(*this, n)
            &&& layout.size() == stride * n
            &&& layout.align() == this.align()
        },
{
    broadcast use Layout::lemma_with;

    proof {
        use_type_invariant(this);
    }
    let padded_size: usize = pad_layout_to_align(this).size();
    let alloc_size: usize = match padded_size.checked_mul(n) {
        Some(alloc_size) => alloc_size,
        None => {
            proof {
                lemma_power_of_two_bound(this.align());
            }
            return Err(layout_err());
        },
    };
    match Layout::from_size_align(alloc_size, this.align()) {
        Ok(layout) => {
            proof {
                layout.lemma_same(repeated(*this, n));
            }
            Ok((layout, padded_size))
        },
        Err(e) => Err(e),
    }
}

/// The layout of `n` values of type `T` in a row, or an error where that is
/// too much.
pub fn layout_array<T>(n: usize) -> (r: Result<Layout, LayoutError>)
    ensures
        r is Ok <==> can_repeat(Layout::new_spec::<T>(), n),
        r matches Ok(layout) ==> layout == repeated(Layout::new_spec::<T>(), n),
{
    match repeat_layout(&Layout::new::<T>(), n) {
        Ok((layout, _)) => Ok(layout),
        Err(e) => Err(e),
    }
}

/// The layout of a `repr(C)` structure of the three fields `first`, `second`
/// and `third`, in that order, and the offset of each field in it. `None`
/// where the structure would be too large.
pub open spec fn repr_c_3_spec(first: Layout, second: Layout, third: Layout) -> Option<
    (Layout, Seq<usize>),
> {
    let second_at = rounded_up(first.size(), second.align());
    let two_size = second_at + second.size();
    let two_align = max_align(first.align(), second.align());
    let third_at = rounded_up(two_size as usize, third.align());
    let three_size = third_at + third.size();
    let three_align = max_align(two_align, third.align());
    if is_layout(two_size, two_align) && is_layout(three_size, three_align) {
        Some(
            (
                Layout::with(rounded_up(three_size as usize, three_align), three_align),
                seq![0usize, second_at, third_at],
            ),
        )
    } else {
        None
    }
}

/// The layout of a `repr(C)` structure of the three fields, and the offset
/// of each field in it: each field is aligned, and the size of the whole is
/// a multiple of its alignment.
///
/// An error where the structure would be too large.
pub fn repr_c_3(fields: [Layout; 3]) -> (r: Result<(Layout, [usize; 3]), LayoutError>)
    ensures
        r is Ok <==> repr_c_3_spec(fields[0], fields[1], fields[2]) is Some,
        r matches Ok((layout, offsets)) ==> Some((layout, offsets@)) == repr_c_3_spec(
            fields[0],
            fields[1],
            fields[2],
        ),
{
    broadcast use Layout::lemma_with;

    let (two, second_at) = match extend_layout(&fields[0], fields[1]) {
        Ok(extended) => extended,
        Err(e) => {
            return Err(e);
        },
    };
    let (three, third_at) = match extend_layout(&two, fields[2]) {
        Ok(extended) => extended,
        Err(e) => {
            return Err(e);
        },
    };
    let layout = pad_layout_to_align(&three);
    let offsets: [usize; 3] = [0, second_at, third_at];
    proof {
        let spec = repr_c_3_spec(fields[0], fields[1], fields[2]).unwrap();
        layout.lemma_same(spec.0);
        assert(offsets@ =~= spec.1);
    }
    Ok((layout, offsets))
}

} // verus!
