//! The kernel's drivers: byte devices (the terminals and memory devices) and
//! block devices (the disks).
use vstd::prelude::*;

pub mod blockdev;
pub mod bytedev;
pub mod memdev;

verus! {

/// Initialisation that needs no memory allocation.
pub fn init_stage1() {
    bytedev::init_stage1();
    blockdev::init_stage1();
}

} // verus!
