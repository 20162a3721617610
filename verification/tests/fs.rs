use reenix::base::errno::Errno;
use reenix::fs::ramfs::{RamFS, MAX_FILE_LEN, ROOT_INODE_NUM};
use reenix::fs::vfs::trim_name;
use reenix::fs::vnode::{DIRECTORY, REGULAR};

#[test]
fn trim_name_cases() {
    assert_eq!(trim_name(b"a//"), b"a/");
    assert_eq!(trim_name(b"//a"), b"/a");
    assert_eq!(trim_name(b"///a///"), b"/a/");
    assert_eq!(trim_name(b"./a"), b"a");
    assert_eq!(trim_name(b".//./b"), b"b");
    assert_eq!(trim_name(b"./"), b"");
    assert_eq!(trim_name(b""), b"");
    assert_eq!(trim_name(b"a/b"), b"a/b");
}

#[test]
fn inodes_are_handed_out_in_turn() {
    let mut fs = RamFS::initialize();
    assert_eq!(fs.get_inode(), Ok(0));
    assert_eq!(fs.alloc_reg(), Ok(0));
    assert_eq!(fs.alloc_reg(), Ok(1));
    assert_eq!(fs.alloc_dir(ROOT_INODE_NUM), Ok(2));
    assert_eq!(fs.alloc_reg(), Ok(3));
    assert_eq!(fs.alloc_dir(60), Err(Errno::EBADF));
    assert_eq!(fs.alloc_dir(500), Err(Errno::EINVAL));
    assert_eq!(fs.get_vnode(ROOT_INODE_NUM), Ok(ROOT_INODE_NUM));
    assert_eq!(fs.get_vnode(1), Ok(1));
    assert_eq!(fs.get_vnode(50), Err(Errno::EBADF));
    assert_eq!(fs.get_vnode(128), Err(Errno::EINVAL));
}

#[test]
fn inodes_run_out() {
    let mut fs = RamFS::initialize();
    // The scan never comes back to the slot it starts after, so one slot
    // besides the root's stays unused.
    for i in 0..126 {
        assert_eq!(fs.alloc_reg(), Ok(i));
    }
    assert_eq!(fs.alloc_reg(), Err(Errno::ENOSPC));
    assert_eq!(fs.create(ROOT_INODE_NUM, b"f"), Err(Errno::ENOSPC));
}

#[test]
fn directories_and_lookup() {
    let mut fs = RamFS::initialize();
    let root = ROOT_INODE_NUM;
    let f = fs.create(root, b"file").unwrap();
    assert_eq!(fs.create(root, b"file"), Err(Errno::EEXIST));
    assert_eq!(fs.create(root, b"."), Err(Errno::EEXIST));
    assert_eq!(fs.mkdir(root, b"dir"), Ok(()));
    assert_eq!(fs.mkdir(root, b"dir"), Err(Errno::EEXIST));
    let d = fs.lookup(root, b"dir").unwrap();
    assert!(fs.is_directory(d));
    assert!(!fs.is_directory(f));
    assert_eq!(fs.lookup(root, b"file"), Ok(f));
    assert_eq!(fs.lookup(root, b"nothing"), Err(Errno::ENOENT));
    assert_eq!(fs.lookup(root, b"."), Ok(root));
    assert_eq!(fs.lookup(root, b".."), Ok(root));
    assert_eq!(fs.lookup(d, b".."), Ok(root));
    assert_eq!(fs.link(d, f, b"alias"), Ok(()));
    assert_eq!(fs.lookup(d, b"alias"), Ok(f));
    assert_eq!(fs.link(d, d, b"self"), Err(Errno::EISDIR));
    assert_eq!(fs.link(d, f, b"alias"), Err(Errno::EEXIST));
    assert_eq!(fs.dir_len(root), 4);
}

#[test]
fn readdir_lists_entries() {
    let mut fs = RamFS::initialize();
    let root = ROOT_INODE_NUM;
    let f = fs.create(root, b"a").unwrap();
    let (n, e) = fs.readdir(root, 0).unwrap();
    assert_eq!((n, e.inode, e.offset, e.name), (1, root, 1, b".".to_vec()));
    let (n, e) = fs.readdir(root, 1).unwrap();
    assert_eq!((n, e.inode, e.offset, e.name), (1, root, 2, b"..".to_vec()));
    let (n, e) = fs.readdir(root, 2).unwrap();
    assert_eq!((n, e.inode, e.offset, e.name), (1, f, 3, b"a".to_vec()));
    assert_eq!(fs.readdir(root, 3).err(), Some(Errno::EOK));
}

#[test]
fn regular_file_read_write() {
    let mut fs = RamFS::initialize();
    let f = fs.create(ROOT_INODE_NUM, b"f").unwrap();
    assert_eq!(fs.len(f), 0);
    // Writing past the end zeroes the gap and makes the file that long.
    assert_eq!(fs.write(f, 4, b"abc"), Ok(3));
    assert_eq!(fs.len(f), 4);
    let mut buf = [9u8; 8];
    assert_eq!(fs.read(f, 0, &mut buf), Ok(4));
    assert_eq!(buf, [0, 0, 0, 0, 9, 9, 9, 9]);
    // Inside the file the written bytes read back.
    assert_eq!(fs.write(f, 1, b"xy"), Ok(2));
    let mut buf = [0u8; 2];
    assert_eq!(fs.read(f, 1, &mut buf), Ok(2));
    assert_eq!(&buf, b"xy");
    assert_eq!(fs.read(f, 5, &mut buf), Err(Errno::EFBIG));
    assert_eq!(fs.write(f, MAX_FILE_LEN, b"z"), Err(Errno::ENOSPC));
    assert_eq!(fs.write(f, MAX_FILE_LEN - 1, b"zz"), Ok(1));
    assert_eq!(fs.len(f), MAX_FILE_LEN - 1);
}

#[test]
fn modes() {
    let mut fs = RamFS::initialize();
    let f = fs.create(ROOT_INODE_NUM, b"f").unwrap();
    assert_eq!(REGULAR, 0x08);
    assert_eq!(DIRECTORY, 0x02);
    assert!(fs.is_directory(ROOT_INODE_NUM));
    assert!(!fs.is_directory(f));
}

#[test]
fn path_resolution() {
    let mut fs = RamFS::initialize();
    let root = ROOT_INODE_NUM;
    fs.mkdir(root, b"d").unwrap();
    let d = fs.lookup(root, b"d").unwrap();
    assert_eq!(fs.dir_namev(b"", root), Err(Errno::ENOENT));
    assert_eq!(fs.dir_namev(b"/", d), Ok((root, b".".to_vec())));
    // Trimming takes a leading `./` away entirely.
    assert_eq!(fs.dir_namev(b"./", d), Err(Errno::ENOENT));
    // A single component is looked up in the base before it is returned.
    assert_eq!(fs.dir_namev(b"d", root), Ok((d, b"d".to_vec())));
    assert_eq!(fs.dir_namev(b"/d", d), Ok((d, b"d".to_vec())));
    assert_eq!(fs.dir_namev(b"nope", root), Err(Errno::ENOENT));
    // The first lookup is of the whole name, which no entry has.
    assert_eq!(fs.dir_namev(b"d/x", root), Err(Errno::ENOENT));
    assert_eq!(fs.dir_namev(b"d/", root), Err(Errno::ENOENT));
}

#[test]
fn open_namev_creates() {
    let mut fs = RamFS::initialize();
    let root = ROOT_INODE_NUM;
    fs.mkdir(root, b"d").unwrap();
    let d = fs.lookup(root, b"d").unwrap();
    assert_eq!(fs.open_namev(b"/", false, d), Ok(root));
    // `d` resolves to the directory `d` and the name `d`, which is then looked
    // up inside it: missing, and made there when asked to.
    assert_eq!(fs.open_namev(b"d", false, root), Err(Errno::ENOENT));
    let f = fs.open_namev(b"d", true, root).unwrap();
    assert_eq!(fs.lookup(d, b"d"), Ok(f));
    assert_eq!(fs.open_namev(b"d", false, root), Ok(f));
    // A missing single component fails while resolving its directory.
    assert_eq!(fs.open_namev(b"new", true, root), Err(Errno::ENOENT));
}

#[test]
fn wrong_kind_of_node() {
    let mut fs = RamFS::initialize();
    let root = ROOT_INODE_NUM;
    let f = fs.create(root, b"f").unwrap();
    let mut buf = [0u8; 4];
    assert_eq!(fs.read(root, 0, &mut buf), Err(Errno::EISDIR));
    assert_eq!(fs.write(root, 0, b"x"), Err(Errno::EISDIR));
    assert_eq!(fs.lookup(f, b"x"), Err(Errno::ENOTDIR));
    assert_eq!(fs.create(f, b"x"), Err(Errno::ENOTDIR));
    assert_eq!(fs.mkdir(f, b"x"), Err(Errno::ENOTDIR));
    assert_eq!(fs.link(f, f, b"x"), Err(Errno::ENOTDIR));
    assert_eq!(fs.readdir(f, 0).err(), Some(Errno::ENOTDIR));
}
