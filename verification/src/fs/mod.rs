//! File systems: vnodes, path resolution, and the in-memory file system.
use vstd::prelude::*;

pub mod ramfs;
pub mod vfs;
pub mod vnode;

verus! {

/// The number of an inode.
pub type InodeNum = usize;

/// Initialisation that allocates memory: nothing to do.
pub fn init_stage2() {
    ramfs::init_stage2();
}

/// Shutting the file systems down: nothing to do.
pub fn shutdown() {
    ramfs::shutdown();
}

} // verus!
