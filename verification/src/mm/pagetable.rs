//! Page-table entries and the split of a virtual address into table indices.
use vstd::prelude::*;

verus! {

pub const PRESENT: usize = 0x001;
pub const WRITE: usize = 0x002;
pub const USER: usize = 0x004;
pub const WRITE_THROUGH: usize = 0x008;
pub const CACHE_DISABLED: usize = 0x010;
pub const ACCESSED: usize = 0x020;
pub const DIRTY: usize = 0x040;
pub const SIZE: usize = 0x080;
pub const GLOBAL: usize = 0x100;

/// Entries in a page table or page directory (a page of 32-bit entries).
pub const ENTRY_COUNT: usize = 1024;

/// Bytes of address space that one page table maps.
pub const VADDR_SIZE: usize = 4194304;

/// A page directory, by the handle under which the page-table code keeps it.
#[derive(Clone, Copy, Debug, PartialEq, Eq, Structural)]
pub struct PageDir(pub usize);

/// Second initialisation stage: nothing to do.
pub fn init_stage2() {
}

/// The index in the page directory of the table that maps `vaddr`.
pub fn vaddr_to_pdindex(vaddr: usize) -> (r: usize)
    ensures
        r == vaddr / 4096 / 1024,
{
    assert(vaddr >> 12usize == vaddr / 4096) by (bit_vector);
    (vaddr >> 12usize) / ENTRY_COUNT
}

/// The index in its page table of the entry that maps `vaddr`.
pub fn vaddr_to_ptindex(vaddr: usize) -> (r: usize)
    ensures
        r == vaddr / 4096 % 1024,
        r < 1024,
{
    assert(vaddr >> 12usize == vaddr / 4096) by (bit_vector);
    (vaddr >> 12usize) % ENTRY_COUNT
}

/// The start of the page that holds `vaddr`.
pub fn vaddr_to_offset(vaddr: usize) -> (r: usize)
    ensures
        r == vaddr - vaddr % 4096,
{
    assert(vaddr & !0xfffusize == vaddr - vaddr % 4096) by (bit_vector);
    vaddr & !0xfffusize
}

/// A virtual address is its directory index times the span of a table, plus
/// its table index times the page size, plus its offset in the page.
pub proof fn lemma_vaddr_split(vaddr: usize)
    ensures
        vaddr == (vaddr / 4096 / 1024) * 4194304 + (vaddr / 4096 % 1024) * 4096 + vaddr % 4096,
        vaddr - vaddr % 4096 == (vaddr / 4096 / 1024) * 4194304 + (vaddr / 4096 % 1024) * 4096,
{
    let p = vaddr / 4096;
    assert(vaddr == p * 4096 + vaddr % 4096);
    assert(p == (p / 1024) * 1024 + p % 1024);
    assert((p / 1024) * 1024 * 4096 == (p / 1024) * 4194304) by (nonlinear_arith);
    assert(p * 4096 == ((p / 1024) * 1024 + p % 1024) * 4096);
    assert(((p / 1024) * 1024 + p % 1024) * 4096 == (p / 1024) * 1024 * 4096 + (p % 1024) * 4096)
        by (nonlinear_arith);
}

} // verus!
