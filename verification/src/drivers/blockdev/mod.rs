//! Block devices: the disks, registered by id.
use vstd::prelude::*;

pub mod disk;

verus! {

/// Initialisation that needs no memory allocation.
pub fn init_stage1() {
    disk::init_stage1();
}

/// Initialisation that runs in a process context: nothing to do.
pub fn init_stage3() {
}

} // verus!
