//! What a vnode is: its kind, and the directory entries it lists.
use vstd::prelude::*;
use crate::fs::InodeNum;

verus! {

/// The kind of a vnode, one bit per kind.
pub type Mode = u8;

/// No kind.
pub const UNUSED: Mode = 0;
/// A character device.
pub const CHAR_DEV: Mode = 0x01;
/// A directory.
pub const DIRECTORY: Mode = 0x02;
/// A block device.
pub const BLOCK_DEV: Mode = 0x04;
/// A regular file.
pub const REGULAR: Mode = 0x08;
/// A symbolic link.
pub const LINK: Mode = 0x10;
/// A fifo.
pub const PIPE: Mode = 0x20;

/// An entry read from a directory: the inode it names, the offset of the
/// next entry, and its name.
#[derive(Clone, Debug, PartialEq, Eq)]
pub struct DirEnt {
    pub inode: InodeNum,
    pub offset: usize,
    pub name: Vec<u8>,
}

} // verus!
