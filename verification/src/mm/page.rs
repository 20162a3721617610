//! Page arithmetic on addresses.
use vstd::prelude::*;

verus! {

/// Log2 of the page size.
pub const SHIFT: usize = 12;

/// The page size in bytes.
pub const SIZE: usize = 4096;

/// The mask that keeps the page part of an address.
pub const MASK: usize = !0xfffusize;

/// The number of page size classes.
pub const NSIZES: usize = 8;

/// Second initialisation stage of the page allocator: nothing to do.
pub fn init_stage2() {
}

/// The offset of `x` in its page.
pub fn offset(x: usize) -> (r: usize)
    ensures
        r == x % 4096,
{
    assert(x & !MASK == x % 4096) by (bit_vector);
    x & !MASK
}

/// Whether `x` is the start of a page.
pub fn aligned(x: usize) -> (r: bool)
    ensures
        r == (x % 4096 == 0),
{
    0 == offset(x)
}

/// The start of the page that holds `x`.
pub fn align_down(x: usize) -> (r: usize)
    ensures
        r == x - x % 4096,
{
    assert(x & MASK == x - x % 4096) by (bit_vector);
    x & MASK
}

/// The start of the page that holds `x`.
pub fn const_align_down(x: usize) -> (r: usize)
    ensures
        r == x - x % 4096,
{
    align_down(x)
}

/// The first page start at or after `x`, which must be positive and have one.
pub fn align_up(x: usize) -> (r: usize)
    requires
        0 < x,
        (x - 1) - (x - 1) % 4096 + 4096 <= usize::MAX,
    ensures
        r % 4096 == 0,
        x <= r < x + 4096,
{
    let d = align_down(x - 1);
    d + SIZE
}

/// The first page start at or after `x`, which must be positive and have one.
pub fn const_align_up(x: usize) -> (r: usize)
    requires
        0 < x,
        (x - 1) - (x - 1) % 4096 + 4096 <= usize::MAX,
    ensures
        r % 4096 == 0,
        x <= r < x + 4096,
{
    align_up(x)
}

/// The address of page number `x`, the product taken modulo the word size as a
/// shift by the page size leaves it.
pub fn num_to_addr(x: usize) -> (r: usize)
    ensures
        r == (x as nat * 4096) % (usize::MAX as nat + 1),
        x * 4096 <= usize::MAX ==> r == x * 4096,
{
    let r = x.wrapping_mul(SIZE);
    proof {
        if x * 4096 <= usize::MAX {
            vstd::arithmetic::div_mod::lemma_small_mod((x * 4096) as nat, (usize::MAX + 1) as nat);
        }
    }
    r
}

/// The number of the page that holds `x`.
pub fn addr_to_num(x: usize) -> (r: usize)
    ensures
        r == x / 4096,
{
    assert(x >> 12usize == x / 4096) by (bit_vector);
    x >> SHIFT
}

/// Whether `x` and `y` lie in the same page.
pub fn same(x: usize, y: usize) -> (r: bool)
    ensures
        r == (x / 4096 == y / 4096),
{
    const_align_down(x) == const_align_down(y)
}

/// Every address is the start of its page plus its offset in the page, and a
/// page number and its address convert into each other.
pub proof fn lemma_page_decomposition(x: usize)
    ensures
        x == (x - x % 4096) + x % 4096,
        (x - x % 4096) % 4096 == 0,
        (x - x % 4096) / 4096 == x / 4096,
        (x / 4096) * 4096 == x - x % 4096,
{
}

} // verus!
