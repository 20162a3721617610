//! Memory management: page arithmetic, page tables, and the maps that find
//! allocators by size.
use vstd::prelude::*;

pub mod allocation;
pub mod page;
pub mod pagetable;
pub mod slabmap;
pub mod tlb;
pub mod utils;

verus! {

/// Second initialisation stage of memory management.
pub fn init_stage2() {
    tlb::init_stage2();
    page::init_stage2();
    pagetable::init_stage2();
    allocation::init_stage2();
}

} // verus!
