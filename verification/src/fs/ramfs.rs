//! The in-memory file system: a table of inodes holding regular files of at
//! most a page, directories, and device nodes. The root directory has the
//! last inode number; the others are handed out by a circular scan for a free
//! slot.
use vstd::prelude::*;
use crate::base::devices::DeviceId;
use crate::base::errno::{Errno, KResult};
use crate::fs::InodeNum;
use crate::fs::vnode::{DirEnt, Mode, BLOCK_DEV, CHAR_DEV, DIRECTORY, REGULAR};

verus! {

/// The longest name of a directory entry.
pub const NAME_LEN: usize = 28;

/// The number of inodes.
pub const MAX_INODES: usize = 128;

/// The inode of the root directory.
pub const ROOT_INODE_NUM: usize = 127;

/// The inodes handed out by the scan: all but the root's.
pub const NUM_SLOTS: usize = 127;

/// The largest file.
pub const MAX_FILE_LEN: usize = 4096;

/// Initialisation that allocates memory: nothing to do.
pub fn init_stage2() {
}

/// Shutting down: nothing to do.
pub fn shutdown() {
}

/// The device id of the file system: major 4, minor 0.
pub fn ramfs_devid() -> (r: DeviceId)
    ensures
        r.major() == 4,
        r.minor() == 0,
{
    DeviceId::create(4, 0)
}

/// A named entry of a directory.
pub struct DirEntry {
    pub name: Vec<u8>,
    pub inode: InodeNum,
}

/// A regular file: a page of bytes, of which the first `len` are the file.
pub struct RegInode {
    data: Vec<u8>,
    len: usize,
}

/// A directory: its parent, if it is not the root, and its entries in the
/// order they were made.
pub struct DirInode {
    parent: Option<InodeNum>,
    entries: Vec<DirEntry>,
}

/// A vnode of the file system.
pub enum RVNode {
    Byte(DeviceId),
    Block(DeviceId),
    Regular(RegInode),
    Directory(DirInode),
}

/// What a vnode holds.
pub enum NodeView {
    Byte(DeviceId),
    Block(DeviceId),
    Regular { data: Seq<u8>, len: nat },
    Directory { parent: Option<InodeNum>, entries: Seq<(Seq<u8>, InodeNum)> },
}

impl RVNode {
    /// What the vnode holds.
    pub closed spec fn view(&self) -> NodeView {
        match self {
            RVNode::Byte(d) => NodeView::Byte(*d),
            RVNode::Block(d) => NodeView::Block(*d),
            RVNode::Regular(r) => NodeView::Regular { data: r.data@, len: r.len as nat },
            RVNode::Directory(d) => NodeView::Directory {
                parent: d.parent,
                entries: d.entries@.map_values(|e: DirEntry| (e.name@, e.inode)),
            },
        }
    }

    /// The kind of the vnode.
    pub fn get_mode(&self) -> (r: Mode)
        ensures
            r == mode_spec(self.view()),
    {
        match self {
            RVNode::Byte(_) => CHAR_DEV,
            RVNode::Block(_) => BLOCK_DEV,
            RVNode::Regular(_) => REGULAR,
            RVNode::Directory(_) => DIRECTORY,
        }
    }
}

/// The kind of what a vnode holds.
pub open spec fn mode_spec(n: NodeView) -> Mode {
    match n {
        NodeView::Byte(_) => CHAR_DEV,
        NodeView::Block(_) => BLOCK_DEV,
        NodeView::Regular { .. } => REGULAR,
        NodeView::Directory { .. } => DIRECTORY,
    }
}

/// A regular file's page is a page long and its length fits in it.
pub open spec fn node_wf(n: NodeView) -> bool {
    match n {
        NodeView::Regular { data, len } => data.len() == MAX_FILE_LEN && len <= MAX_FILE_LEN,
        _ => true,
    }
}

/// An inode that is free or holds a well-formed vnode.
pub open spec fn slot_wf(o: Option<NodeView>) -> bool {
    match o {
        Some(n) => node_wf(n),
        None => true,
    }
}

/// There is a slot for each inode number; the root is a directory without a
/// parent; every regular file is well formed; every reference is in use.
pub open spec fn nodes_wf(s: Seq<Option<NodeView>>) -> bool {
    &&& s.len() == MAX_INODES
    &&& s[ROOT_INODE_NUM as int] matches Some(NodeView::Directory { parent, .. })
    &&& s[ROOT_INODE_NUM as int]->0->Directory_parent is None
    &&& forall|i: int| 0 <= i < MAX_INODES ==> slot_wf(#[trigger] s[i])
    &&& refs_ok(s)
}

/// Inode `n` is in use.
pub open spec fn in_use(s: Seq<Option<NodeView>>, n: InodeNum) -> bool {
    n < MAX_INODES && s[n as int] is Some
}

/// Every directory's parent and every inode a directory entry names is in use.
pub open spec fn refs_ok(s: Seq<Option<NodeView>>) -> bool {
    forall|i: int|
        #![trigger s[i]]
        0 <= i < s.len() ==> match s[i] {
            Some(NodeView::Directory { parent, entries }) => {
                &&& (parent matches Some(p) ==> in_use(s, p))
                &&& forall|k: int| 0 <= k < entries.len() ==> in_use(s, #[trigger] entries[k].1)
            },
            _ => true,
        }
}

/// The inode that the first entry named `name` in `entries` names.
pub open spec fn dir_find(entries: Seq<(Seq<u8>, InodeNum)>, name: Seq<u8>) -> Option<InodeNum>
    decreases entries.len(),
{
    if entries.len() == 0 {
        None
    } else if entries[0].0 == name {
        Some(entries[0].1)
    } else {
        dir_find(entries.drop_first(), name)
    }
}

/// The name `.`.
pub open spec fn dot() -> Seq<u8> {
    seq![0x2eu8]
}

/// The name `..`.
pub open spec fn dotdot() -> Seq<u8> {
    seq![0x2eu8, 0x2eu8]
}

/// The first free slot of `s` scanning circularly from `last + k` on, short
/// of coming back to `last`.
pub open spec fn next_free(s: Seq<Option<NodeView>>, last: int, k: int) -> Option<int>
    decreases NUM_SLOTS - k,
{
    if k >= NUM_SLOTS || k < 1 {
        None
    } else if s[(last + k) % (NUM_SLOTS as int)] is None {
        Some((last + k) % (NUM_SLOTS as int))
    } else {
        next_free(s, last, k + 1)
    }
}

/// The in-memory file system: its inodes and the last one handed out for a
/// directory, where the next scan starts.
pub struct RamFS {
    inodes: Vec<Option<RVNode>>,
    last: usize,
}

impl RamFS {
    /// What each inode holds.
    pub closed spec fn nodes(&self) -> Seq<Option<NodeView>> {
        self.inodes@.map_values(|n: Option<RVNode>| match n {
            Some(v) => Some(v.view()),
            None => None,
        })
    }

    /// Where the next scan for a free inode starts.
    pub closed spec fn last_spec(&self) -> int {
        self.last as int
    }

    /// There is an inode for each number; the root is a directory without a
    /// parent; every regular file is well formed; the scan starts at a slot.
    pub open spec fn wf(&self) -> bool {
        &&& nodes_wf(self.nodes())
        &&& 0 <= self.last_spec() < NUM_SLOTS
    }

    /// Whether `num` is a directory.
    pub open spec fn is_dir(&self, num: int) -> bool {
        0 <= num < MAX_INODES && self.nodes()[num] matches Some(NodeView::Directory { .. })
    }

    /// Whether `num` is a regular file.
    pub open spec fn is_reg(&self, num: int) -> bool {
        0 <= num < MAX_INODES && self.nodes()[num] matches Some(NodeView::Regular { .. })
    }

    /// The entries of directory `num`.
    pub open spec fn entries_of(&self, num: int) -> Seq<(Seq<u8>, InodeNum)> {
        self.nodes()[num]->0->Directory_entries
    }

    /// The parent of directory `num`.
    pub open spec fn parent_of(&self, num: int) -> Option<InodeNum> {
        self.nodes()[num]->0->Directory_parent
    }

    /// The page of regular file `num`.
    pub open spec fn data_of(&self, num: int) -> Seq<u8> {
        self.nodes()[num]->0->Regular_data
    }

    /// The length of regular file `num`.
    pub open spec fn len_of(&self, num: int) -> nat {
        self.nodes()[num]->0->Regular_len
    }

    /// A file system holding only the empty root directory.
    pub fn initialize() -> (r: RamFS)
        ensures
            r.wf(),
            r.last_spec() == ROOT_INODE_NUM - 1,
            forall|i: int| 0 <= i < NUM_SLOTS ==> r.nodes()[i] is None,
            r.is_dir(ROOT_INODE_NUM as int),
            r.entries_of(ROOT_INODE_NUM as int) == Seq::<(Seq<u8>, InodeNum)>::empty(),
    {
        let mut inodes: Vec<Option<RVNode>> = Vec::new();
        while inodes.len() < NUM_SLOTS
            invariant
                inodes@.len() <= NUM_SLOTS,
                forall|i: int| 0 <= i < inodes@.len() ==> inodes@[i] is None,
            decreases NUM_SLOTS - inodes@.len(),
        {
            inodes.push(None);
        }
        inodes.push(Some(RVNode::Directory(DirInode { parent: None, entries: Vec::new() })));
        let r = RamFS { inodes, last: ROOT_INODE_NUM - 1 };
        proof {
            assert(r.nodes()[ROOT_INODE_NUM as int] == Some(r.inodes@[ROOT_INODE_NUM as int]->0.view()));
            assert(r.entries_of(ROOT_INODE_NUM as int) =~= Seq::<(Seq<u8>, InodeNum)>::empty());
            assert forall|i: int| 0 <= i < MAX_INODES implies slot_wf(#[trigger] r.nodes()[i]) by {
                if i < NUM_SLOTS {
                    assert(r.inodes@[i] is None);
                }
            }
        }
        r
    }

    /// A free inode number: the first free slot after the last directory
    /// made, going round, or `ENOSPC` where all are taken.
    pub fn get_inode(&self) -> (r: KResult<InodeNum>)
        requires
            self.wf(),
        ensures
            match next_free(self.nodes(), self.last_spec(), 1) {
                Some(c) => r == Ok::<InodeNum, Errno>(c as InodeNum),
                None => r == Err::<InodeNum, Errno>(Errno::ENOSPC),
            },
    {
        let s = self.last;
        let mut k: usize = 1;
        while k < NUM_SLOTS
            invariant
                1 <= k <= NUM_SLOTS,
                s == self.last,
                self.wf(),
                next_free(self.nodes(), s as int, 1) == next_free(self.nodes(), s as int, k as int),
            decreases NUM_SLOTS - k,
        {
            let c = (s + k) % NUM_SLOTS;
            if self.inodes[c].is_none() {
                proof {
                    assert(self.nodes()[c as int] is None);
                }
                return Ok(c);
            }
            proof {
                assert(self.nodes()[c as int] is Some);
            }
            k = k + 1;
        }
        Err(Errno::ENOSPC)
    }

    /// Put `node` in inode `i`, which is free.
    fn place(&mut self, i: usize, node: RVNode)
        requires
            old(self).wf(),
            i < NUM_SLOTS,
            old(self).nodes()[i as int] is None,
            node_wf(node.view()),
            node_refs_ok(old(self).nodes(), node.view()),
        ensures
            final(self).wf(),
            final(self).nodes() == old(self).nodes().update(i as int, Some(node.view())),
            final(self).last_spec() == old(self).last_spec(),
    {
        self.inodes.set(i, Some(node));
        proof {
            assert(self.nodes() =~= old(self).nodes().update(i as int, Some(node.view())));
            lemma_refs_ok_update(old(self).nodes(), i as int, node.view());
        }
    }

    /// A new empty regular file.
    pub fn alloc_reg(&mut self) -> (r: KResult<InodeNum>)
        requires
            old(self).wf(),
        ensures
            final(self).wf(),
            final(self).last_spec() == old(self).last_spec(),
            match next_free(old(self).nodes(), old(self).last_spec(), 1) {
                Some(c) => {
                    &&& r == Ok::<InodeNum, Errno>(c as InodeNum)
                    &&& final(self).nodes() == old(self).nodes().update(
                        c,
                        Some(NodeView::Regular { data: Seq::new(MAX_FILE_LEN as nat, |j: int| 0u8), len: 0 }),
                    )
                },
                None => r == Err::<InodeNum, Errno>(Errno::ENOSPC) && final(self).nodes() == old(self).nodes(),
            },
    {
        let ni = match self.get_inode() {
            Ok(n) => n,
            Err(e) => return Err(e),
        };
        proof { lemma_next_free_in_range(old(self).nodes(), old(self).last_spec(), 1); }
        let data = zero_page();
        let node = RVNode::Regular(RegInode { data, len: 0 });
        proof {
            assert(data@ =~= Seq::new(MAX_FILE_LEN as nat, |j: int| 0u8));
        }
        self.place(ni, node);
        Ok(ni)
    }

    /// Whether `num` names a vnode: the root, or an inode in use.
    pub fn get_vnode(&self, num: InodeNum) -> (r: KResult<InodeNum>)
        requires
            self.wf(),
        ensures
            num >= MAX_INODES ==> r == Err::<InodeNum, Errno>(Errno::EINVAL),
            num < MAX_INODES && self.nodes()[num as int] is None ==> r == Err::<InodeNum, Errno>(
                Errno::EBADF,
            ),
            num < MAX_INODES && self.nodes()[num as int] is Some ==> r == Ok::<InodeNum, Errno>(num),
    {
        if num == ROOT_INODE_NUM {
            Ok(num)
        } else if num < MAX_INODES {
            if self.inodes[num].is_some() {
                Ok(num)
            } else {
                Err(Errno::EBADF)
            }
        } else {
            Err(Errno::EINVAL)
        }
    }

    /// A new empty directory under `parent`; `EBADF` where `parent` names no
    /// vnode. The scan for the next inode starts after this one.
    pub fn alloc_dir(&mut self, parent: InodeNum) -> (r: KResult<InodeNum>)
        requires
            old(self).wf(),
        ensures
            final(self).wf(),
            (parent >= MAX_INODES || old(self).nodes()[parent as int] is None) ==> r == Err::<
                InodeNum,
                Errno,
            >(if parent >= MAX_INODES { Errno::EINVAL } else { Errno::EBADF })
                && final(self).nodes() == old(self).nodes() && final(self).last_spec() == old(self).last_spec(),
            parent < MAX_INODES && old(self).nodes()[parent as int] is Some ==> match next_free(
                old(self).nodes(),
                old(self).last_spec(),
                1,
            ) {
                Some(c) => {
                    &&& r == Ok::<InodeNum, Errno>(c as InodeNum)
                    &&& final(self).last_spec() == c
                    &&& final(self).nodes() == old(self).nodes().update(
                        c,
                        Some(NodeView::Directory { parent: Some(parent), entries: Seq::empty() }),
                    )
                },
                None => r == Err::<InodeNum, Errno>(Errno::ENOSPC) && final(self).nodes() == old(self).nodes() && final(self).last_spec() == old(self).last_spec(),
            },
    {
        match self.get_vnode(parent) {
            Ok(_) => {},
            Err(e) => return Err(e),
        }
        let ni = match self.get_inode() {
            Ok(n) => n,
            Err(e) => return Err(e),
        };
        proof { lemma_next_free_in_range(old(self).nodes(), old(self).last_spec(), 1); }
        let node = RVNode::Directory(DirInode { parent: Some(parent), entries: Vec::new() });
        proof {
            assert(node.view() == NodeView::Directory { parent: Some(parent), entries: Seq::empty() }) by {
                assert(node->Directory_0.entries@.map_values(|e: DirEntry| (e.name@, e.inode)) =~= Seq::<(Seq<u8>, InodeNum)>::empty());
            }
        }
        self.last = ni;
        self.place(ni, node);
        Ok(ni)
    }
}

/// What vnode `n` refers to is in use in `s`.
pub open spec fn node_refs_ok(s: Seq<Option<NodeView>>, n: NodeView) -> bool {
    match n {
        NodeView::Directory { parent, entries } => {
            &&& (parent matches Some(p) ==> in_use(s, p))
            &&& forall|k: int| 0 <= k < entries.len() ==> in_use(s, #[trigger] entries[k].1)
        },
        _ => true,
    }
}

/// Filling a slot, free or not, with a vnode whose references are in use
/// keeps every reference in use.
proof fn lemma_refs_ok_update(s: Seq<Option<NodeView>>, i: int, n: NodeView)
    requires
        s.len() == MAX_INODES,
        refs_ok(s),
        0 <= i < s.len(),
        node_refs_ok(s, n),
    ensures
        refs_ok(s.update(i, Some(n))),
{
    let t = s.update(i, Some(n));
    assert forall|x: InodeNum| in_use(s, x) implies in_use(t, x) by {
        if x as int != i {
            assert(t[x as int] == s[x as int]);
        }
    }
    assert forall|j: int| #![trigger t[j]] 0 <= j < t.len() implies match t[j] {
        Some(NodeView::Directory { parent, entries }) => {
            &&& (parent matches Some(p) ==> in_use(t, p))
            &&& forall|k: int| 0 <= k < entries.len() ==> in_use(t, #[trigger] entries[k].1)
        },
        _ => true,
    } by {
        if j != i {
            assert(t[j] == s[j]);
        }
        match t[j] {
            Some(NodeView::Directory { parent, entries }) => {
                assert forall|k: int| 0 <= k < entries.len() implies in_use(t, #[trigger] entries[k].1) by {
                    assert(in_use(s, entries[k].1));
                }
            },
            _ => {},
        }
    }
}


impl RamFS {
    /// Take the vnode of inode `i` out, leaving its slot empty for a moment.
    fn take(&mut self, i: usize) -> (r: RVNode)
        requires
            old(self).inodes@.len() == MAX_INODES,
            i < MAX_INODES,
            old(self).inodes@[i as int] is Some,
        ensures
            r == old(self).inodes@[i as int]->0,
            final(self).inodes@ == old(self).inodes@.update(i as int, None),
            final(self).last == old(self).last,
    {
        let n = self.inodes.remove(i);
        self.inodes.insert(i, None);
        proof {
            assert(self.inodes@ =~= old(self).inodes@.update(i as int, None));
        }
        match n {
            Some(v) => v,
            None => {
                proof {
                    assert(false);
                }
                RVNode::Byte(DeviceId(0))
            },
        }
    }

    /// Put `node` back into inode `i` in place of what `take` took, where the
    /// result is well formed.
    fn put_back(&mut self, i: usize, node: RVNode, Ghost(before): Ghost<Seq<Option<NodeView>>>)
        requires
            nodes_wf(before),
            before[i as int] is Some,
            i < MAX_INODES,
            old(self).nodes() == before.update(i as int, None),
            0 <= old(self).last_spec() < NUM_SLOTS,
            node_wf(node.view()),
            node_refs_ok(before, node.view()),
            i == ROOT_INODE_NUM ==> node.view() matches NodeView::Directory { parent: None, .. },
        ensures
            final(self).wf(),
            final(self).nodes() == before.update(i as int, Some(node.view())),
            final(self).last_spec() == old(self).last_spec(),
    {
        proof {
            assert(self.inodes@.len() == self.nodes().len());
        }
        let ghost pre = self.inodes@;
        self.inodes.set(i, Some(node));
        proof {
            assert forall|j: int| 0 <= j < MAX_INODES implies #[trigger] self.nodes()[j] == before.update(
                i as int,
                Some(node.view()),
            )[j] by {
                if j != i {
                    assert(self.inodes@[j] == pre[j]);
                    assert(old(self).nodes()[j] == before[j]);
                }
            }
            assert(self.nodes() =~= before.update(i as int, Some(node.view())));
            lemma_refs_ok_update(before, i as int, node.view());
            let t = before.update(i as int, Some(node.view()));
            assert forall|j: int| 0 <= j < MAX_INODES implies slot_wf(#[trigger] t[j]) by {
                if j != i {
                    assert(t[j] == before[j]);
                }
            }
        }
    }

    /// The length of regular file `num`.
    pub fn len(&self, num: InodeNum) -> (r: usize)
        requires
            self.wf(),
            self.is_reg(num as int),
        ensures
            r == self.len_of(num as int),
    {
        match &self.inodes[num] {
            Some(RVNode::Regular(reg)) => reg.len,
            _ => {
                proof {
                    assert(false);
                }
                0
            },
        }
    }

    /// Read from regular file `num` at `off` into `buf`: up to the end of the
    /// file, or `EFBIG` where `off` is past it. Returns how much was read.
    pub fn read(&self, num: InodeNum, off: usize, buf: &mut [u8]) -> (r: KResult<usize>)
        requires
            self.wf(),
            in_use(self.nodes(), num),
        ensures
            !self.is_reg(num as int) ==> r == Err::<usize, Errno>(Errno::EISDIR) && final(buf)@ == old(buf)@,
            self.is_reg(num as int) && off > self.len_of(num as int) ==> r == Err::<usize, Errno>(Errno::EFBIG) && final(buf)@
                == old(buf)@,
            self.is_reg(num as int) && off <= self.len_of(num as int) ==> {
                let end = read_end(off as int, old(buf)@.len() as int, self.len_of(num as int) as int);
                &&& r == Ok::<usize, Errno>((end - off) as usize)
                &&& final(buf)@ == self.data_of(num as int).subrange(off as int, end) + old(buf)@.subrange(end - off, old(buf)@.len() as int)
            },
    {
        if !self.is_regular(num) {
            return Err(Errno::EISDIR);
        }
        let reg = match &self.inodes[num] {
            Some(RVNode::Regular(reg)) => reg,
            _ => {
                proof {
                    assert(false);
                }
                return Err(Errno::EFBIG);
            },
        };
        let len = reg.len;
        if off > len {
            return Err(Errno::EFBIG);
        }
        let end = if buf.len() < len - off { off + buf.len() } else { len };
        let n = end - off;
        let mut k: usize = 0;
        while k < n
            invariant
                k <= n,
                n == end - off,
                off <= end <= len <= MAX_FILE_LEN,
                n <= buf@.len(),
                reg.data@.len() == MAX_FILE_LEN,
                buf@.len() == old(buf)@.len(),
                forall|j: int| 0 <= j < k ==> buf@[j] == reg.data@[off + j],
                forall|j: int| k <= j < buf@.len() ==> buf@[j] == old(buf)@[j],
            decreases n - k,
        {
            buf[k] = reg.data[off + k];
            k = k + 1;
        }
        proof {
            assert(buf@ =~= reg.data@.subrange(off as int, end as int) + old(buf)@.subrange(
                n as int,
                old(buf)@.len() as int,
            ));
        }
        Ok(n)
    }

    /// Write `buf` into regular file `num` at `off`: as much as fits in a
    /// page; a gap between the end of the file and `off` is zeroed first and
    /// the file grows to `off`. `ENOSPC` where `off` is past the page.
    /// Returns how much was written.
    pub fn write(&mut self, num: InodeNum, off: usize, buf: &[u8]) -> (r: KResult<usize>)
        requires
            old(self).wf(),
            in_use(old(self).nodes(), num),
        ensures
            final(self).wf(),
            final(self).last_spec() == old(self).last_spec(),
            !old(self).is_reg(num as int) ==> r == Err::<usize, Errno>(Errno::EISDIR) && final(self).nodes()
                == old(self).nodes(),
            old(self).is_reg(num as int) && off >= MAX_FILE_LEN ==> r == Err::<usize, Errno>(Errno::ENOSPC) && final(self).nodes()
                == old(self).nodes(),
            old(self).is_reg(num as int) && off < MAX_FILE_LEN ==> {
                let n = if buf@.len() < MAX_FILE_LEN - off { buf@.len() as int } else { MAX_FILE_LEN - off };
                let len = old(self).len_of(num as int);
                &&& r == Ok::<usize, Errno>(n as usize)
                &&& final(self).nodes() == old(self).nodes().update(
                    num as int,
                    Some(
                        NodeView::Regular {
                            data: write_data(
                                old(self).data_of(num as int),
                                len,
                                off as int,
                                buf@.subrange(0, n),
                            ),
                            len: if off > len { off as nat } else { len },
                        },
                    ),
                )
            },
    {
        if !self.is_regular(num) {
            return Err(Errno::EISDIR);
        }
        if off >= MAX_FILE_LEN {
            return Err(Errno::ENOSPC);
        }
        let ghost before = self.nodes();
        proof {
            assert(before[num as int] == Some(old(self).inodes@[num as int]->0.view()));
        }
        let node = self.take(num);
        proof {
            assert(self.nodes() =~= before.update(num as int, None));
        }
        let mut reg = match node {
            RVNode::Regular(reg) => reg,
            _ => {
                proof {
                    assert(false);
                }
                RegInode { data: Vec::new(), len: 0 }
            },
        };
        proof {
            assert(slot_wf(before[num as int]));
            assert(before[num as int]->0 == NodeView::Regular { data: reg.data@, len: reg.len as nat });
        }
        let ghost d0 = reg.data@;
        let ghost l0 = reg.len;
        assert(d0.len() == MAX_FILE_LEN && l0 <= MAX_FILE_LEN);
        // Zero the gap between the end of the file and `off`.
        if off > reg.len {
            let mut i = reg.len;
            while i < off
                invariant
                    l0 <= i <= off < MAX_FILE_LEN,
                    reg.len == l0,
                    reg.data@.len() == MAX_FILE_LEN,
                    forall|j: int| 0 <= j < MAX_FILE_LEN ==> reg.data@[j] == (if l0 <= j < i { 0u8 } else { d0[j] }),
                decreases off - i,
            {
                reg.data.set(i, 0);
                i = i + 1;
            }
            reg.len = off;
        }
        let n = if buf.len() < MAX_FILE_LEN - off { buf.len() } else { MAX_FILE_LEN - off };
        let ghost d1 = reg.data@;
        let mut k: usize = 0;
        while k < n
            invariant
                k <= n,
                off + n <= MAX_FILE_LEN,
                n <= buf@.len(),
                reg.data@.len() == MAX_FILE_LEN,
                d1.len() == MAX_FILE_LEN,
                reg.len == (if off > l0 { off } else { l0 }),
                forall|j: int| 0 <= j < MAX_FILE_LEN ==> reg.data@[j] == (if off <= j < off + k { buf@[j - off] } else { d1[j] }),
            decreases n - k,
        {
            reg.data.set(off + k, buf[k]);
            k = k + 1;
        }
        proof {
            assert(reg.data@ =~= write_data(d0, l0 as nat, off as int, buf@.subrange(0, n as int)));
        }
        assert(reg.data@.len() == MAX_FILE_LEN);
        assert(reg.len <= MAX_FILE_LEN);
        let out = RVNode::Regular(reg);
        assert(out.view() == NodeView::Regular { data: reg.data@, len: reg.len as nat });
        self.put_back(num, out, Ghost(before));
        Ok(n)
    }
}

/// Where a read of `count` bytes at `off` of a file of `len` bytes stops.
pub open spec fn read_end(off: int, count: int, len: int) -> int {
    if count < len - off { off + count } else { len }
}

/// A file's page once `bytes` are written at `off` of a file of `len` bytes:
/// the written bytes, zeros between the old end and `off`, the rest as it was.
pub open spec fn write_data(data: Seq<u8>, len: nat, off: int, bytes: Seq<u8>) -> Seq<u8> {
    Seq::new(
        data.len(),
        |j: int|
            if off <= j < off + bytes.len() {
                bytes[j - off]
            } else if len <= j < off {
                0u8
            } else {
                data[j]
            },
    )
}


/// A directory entry's name and inode, as the directory's view lists them.
pub open spec fn entry_view(e: DirEntry) -> (Seq<u8>, InodeNum) {
    (e.name@, e.inode)
}

/// A new empty regular file.
pub open spec fn empty_reg() -> NodeView {
    NodeView::Regular { data: Seq::new(MAX_FILE_LEN as nat, |j: int| 0u8), len: 0 }
}

/// Directory `n` with the entry `name` for `ino` added.
pub open spec fn with_entry(n: NodeView, name: Seq<u8>, ino: InodeNum) -> NodeView {
    NodeView::Directory {
        parent: n->Directory_parent,
        entries: n->Directory_entries.push((name, ino)),
    }
}

/// What looking `name` up in directory `dir` of `s` finds: `.` is the
/// directory, `..` its parent (the root is its own), anything else the
/// first entry of that name, or `ENOENT`.
pub open spec fn lookup_spec(s: Seq<Option<NodeView>>, dir: InodeNum, name: Seq<u8>) -> KResult<InodeNum> {
    if name == dot() {
        Ok(dir)
    } else if name == dotdot() {
        Ok(
            match s[dir as int]->0->Directory_parent {
                Some(p) => p,
                None => dir,
            },
        )
    } else {
        match dir_find(s[dir as int]->0->Directory_entries, name) {
            Some(i) => Ok(i),
            None => Err(Errno::ENOENT),
        }
    }
}

/// Whether `a` and `b` hold the same bytes.
pub fn bytes_eq(a: &[u8], b: &[u8]) -> (r: bool)
    ensures
        r == (a@ == b@),
{
    if a.len() != b.len() {
        return false;
    }
    let mut i: usize = 0;
    while i < a.len()
        invariant
            i <= a@.len() == b@.len(),
            forall|j: int| 0 <= j < i ==> a@[j] == b@[j],
        decreases a@.len() - i,
    {
        if a[i] != b[i] {
            return false;
        }
        i = i + 1;
    }
    assert(a@ =~= b@);
    true
}

/// Whether `name` is `.`.
fn is_dot(name: &[u8]) -> (r: bool)
    ensures
        r == (name@ == dot()),
{
    let r = name.len() == 1 && name[0] == 0x2e;
    proof {
        if r {
            assert(name@ =~= dot());
        }
    }
    r
}

/// Whether `name` is `..`.
fn is_dotdot(name: &[u8]) -> (r: bool)
    ensures
        r == (name@ == dotdot()),
{
    let r = name.len() == 2 && name[0] == 0x2e && name[1] == 0x2e;
    proof {
        if r {
            assert(name@ =~= dotdot());
        }
    }
    r
}

/// The inode of the first entry named `name`.
fn find_entry(entries: &Vec<DirEntry>, name: &[u8]) -> (r: Option<InodeNum>)
    ensures
        r == dir_find(entries@.map_values(|e: DirEntry| entry_view(e)), name@),
{
    let ghost es = entries@.map_values(|e: DirEntry| entry_view(e));
    let mut i: usize = 0;
    assert(es.subrange(0, es.len() as int) =~= es);
    while i < entries.len()
        invariant
            i <= entries@.len(),
            es == entries@.map_values(|e: DirEntry| entry_view(e)),
            dir_find(es, name@) == dir_find(es.subrange(i as int, es.len() as int), name@),
        decreases entries@.len() - i,
    {
        let ghost rest = es.subrange(i as int, es.len() as int);
        proof {
            assert(rest.drop_first() =~= es.subrange(i + 1, es.len() as int));
            assert(rest[0] == entry_view(entries@[i as int]));
        }
        if bytes_eq(entries[i].name.as_slice(), name) {
            return Some(entries[i].inode);
        }
        i = i + 1;
    }
    None
}

impl RamFS {
    /// The directory held by inode `num`.
    fn dir_ref(&self, num: InodeNum) -> (r: &DirInode)
        requires
            self.wf(),
            self.is_dir(num as int),
        ensures
            r.parent == self.parent_of(num as int),
            r.entries@.map_values(|e: DirEntry| entry_view(e)) == self.entries_of(num as int),
    {
        match &self.inodes[num] {
            Some(RVNode::Directory(d)) => {
                proof {
                    assert(d.entries@.map_values(|e: DirEntry| entry_view(e)) =~= d.entries@.map_values(
                        |e: DirEntry| (e.name@, e.inode),
                    ));
                }
                d
            },
            _ => vstd::pervasive::unreached(),
        }
    }

    /// Whether inode `num` holds a directory.
    pub fn is_directory(&self, num: InodeNum) -> (r: bool)
        requires
            self.wf(),
            num < MAX_INODES,
        ensures
            r == self.is_dir(num as int),
    {
        proof {
            assert(self.nodes()[num as int] == match self.inodes@[num as int] {
                Some(v) => Some(v.view()),
                None => None,
            });
        }
        match &self.inodes[num] {
            Some(RVNode::Directory(_)) => true,
            _ => false,
        }
    }

    /// Whether inode `num` holds a regular file.
    fn is_regular(&self, num: InodeNum) -> (r: bool)
        requires
            self.wf(),
            num < MAX_INODES,
        ensures
            r == self.is_reg(num as int),
    {
        proof {
            assert(self.nodes()[num as int] == match self.inodes@[num as int] {
                Some(v) => Some(v.view()),
                None => None,
            });
        }
        match &self.inodes[num] {
            Some(RVNode::Regular(_)) => true,
            _ => false,
        }
    }

    /// The number of entries directory `num` lists, with `.` and `..` (a
    /// count that cannot exceed the largest `usize`, which no directory
    /// reaches).
    pub fn dir_len(&self, num: InodeNum) -> (r: usize)
        requires
            self.wf(),
            self.is_dir(num as int),
        ensures
            r == (if self.entries_of(num as int).len() + 2 > usize::MAX {
                usize::MAX as int
            } else {
                self.entries_of(num as int).len() + 2 as int
            }),
    {
        let d = self.dir_ref(num);
        proof {
            assert(d.entries@.len() == self.entries_of(num as int).len());
        }
        d.entries.len().saturating_add(2)
    }

    /// Look `name` up in directory `dir`.
    pub fn lookup(&self, dir: InodeNum, name: &[u8]) -> (r: KResult<InodeNum>)
        requires
            self.wf(),
            in_use(self.nodes(), dir),
        ensures
            !self.is_dir(dir as int) ==> r == Err::<InodeNum, Errno>(Errno::ENOTDIR),
            self.is_dir(dir as int) ==> r == lookup_spec(self.nodes(), dir, name@),
    {
        if !self.is_directory(dir) {
            return Err(Errno::ENOTDIR);
        }
        let d = self.dir_ref(dir);
        if is_dot(name) {
            Ok(dir)
        } else if is_dotdot(name) {
            match d.parent {
                Some(p) => Ok(p),
                None => Ok(dir),
            }
        } else {
            match find_entry(&d.entries, name) {
                Some(i) => Ok(i),
                None => Err(Errno::ENOENT),
            }
        }
    }

    /// Add the entry `name` for `ino` to directory `dir`, where `ino` is in use.
    fn add_entry(&mut self, dir: InodeNum, name: &[u8], ino: InodeNum)
        requires
            old(self).wf(),
            old(self).is_dir(dir as int),
            in_use(old(self).nodes(), ino),
        ensures
            final(self).wf(),
            final(self).last_spec() == old(self).last_spec(),
            final(self).nodes() == old(self).nodes().update(
                dir as int,
                Some(with_entry(old(self).nodes()[dir as int]->0, name@, ino)),
            ),
    {
        let ghost before = self.nodes();
        proof {
            assert(before[dir as int] == Some(old(self).inodes@[dir as int]->0.view()));
        }
        let node = self.take(dir);
        proof {
            assert(self.nodes() =~= before.update(dir as int, None));
        }
        let mut d = match node {
            RVNode::Directory(d) => d,
            _ => {
                proof {
                    assert(false);
                }
                DirInode { parent: None, entries: Vec::new() }
            },
        };
        let ghost e0 = d.entries@;
        d.entries.push(DirEntry { name: vstd::slice::slice_to_vec(name), inode: ino });
        let out = RVNode::Directory(d);
        proof {
            let es = d.entries@.map_values(|e: DirEntry| (e.name@, e.inode));
            assert(es =~= e0.map_values(|e: DirEntry| (e.name@, e.inode)).push((name@, ino)));
            assert(out.view() == with_entry(before[dir as int]->0, name@, ino));
            let n = before[dir as int]->0;
            assert(refs_ok(before));
            assert(before[dir as int] == Some(n));
            assert forall|k: int| 0 <= k < es.len() implies in_use(before, #[trigger] es[k].1) by {
                if k < e0.len() {
                    assert(es[k] == n->Directory_entries[k]);
                }
            }
        }
        self.put_back(dir, out, Ghost(before));
    }

    /// Make an empty regular file `name` in directory `dir`. `EEXIST` where
    /// the name is `.` or taken; `ENOSPC` where no inode is free.
    pub fn create(&mut self, dir: InodeNum, name: &[u8]) -> (r: KResult<InodeNum>)
        requires
            old(self).wf(),
            in_use(old(self).nodes(), dir),
        ensures
            final(self).wf(),
            final(self).last_spec() == old(self).last_spec(),
            !old(self).is_dir(dir as int) ==> r == Err::<InodeNum, Errno>(Errno::ENOTDIR) && final(self).nodes()
                == old(self).nodes(),
            old(self).is_dir(dir as int) && (name@ == dot() || dir_find(old(self).entries_of(dir as int), name@) is Some) ==> r == Err::<
                InodeNum,
                Errno,
            >(Errno::EEXIST) && final(self).nodes() == old(self).nodes(),
            old(self).is_dir(dir as int) && name@ != dot() && dir_find(old(self).entries_of(dir as int), name@) is None ==> match next_free(
                old(self).nodes(),
                old(self).last_spec(),
                1,
            ) {
                Some(c) => r == Ok::<InodeNum, Errno>(c as InodeNum) && final(self).nodes() == old(self).nodes().update(c, Some(empty_reg())).update(
                    dir as int,
                    Some(with_entry(old(self).nodes()[dir as int]->0, name@, c as InodeNum)),
                ),
                None => r == Err::<InodeNum, Errno>(Errno::ENOSPC) && final(self).nodes() == old(self).nodes(),
            },
    {
        if !self.is_directory(dir) {
            return Err(Errno::ENOTDIR);
        }
        if is_dot(name) {
            return Err(Errno::EEXIST);
        }
        let found = find_entry(&self.dir_ref(dir).entries, name);
        if found.is_some() {
            return Err(Errno::EEXIST);
        }
        let ni = match self.alloc_reg() {
            Ok(n) => n,
            Err(e) => return Err(e),
        };
        proof {
            lemma_next_free_in_range(old(self).nodes(), old(self).last_spec(), 1);
            assert(self.nodes()[dir as int] == old(self).nodes()[dir as int]);
        }
        self.add_entry(dir, name, ni);
        Ok(ni)
    }

    /// Make an empty directory `name` in directory `dir`. `EEXIST` where the
    /// name is `.` or taken; `ENOSPC` where no inode is free.
    pub fn mkdir(&mut self, dir: InodeNum, name: &[u8]) -> (r: KResult<()>)
        requires
            old(self).wf(),
            in_use(old(self).nodes(), dir),
        ensures
            final(self).wf(),
            !old(self).is_dir(dir as int) ==> r == Err::<(), Errno>(Errno::ENOTDIR) && final(self).nodes()
                == old(self).nodes() && final(self).last_spec() == old(self).last_spec(),
            old(self).is_dir(dir as int) && (name@ == dot() || dir_find(old(self).entries_of(dir as int), name@) is Some) ==> r == Err::<
                (),
                Errno,
            >(Errno::EEXIST) && final(self).nodes() == old(self).nodes() && final(self).last_spec()
                == old(self).last_spec(),
            old(self).is_dir(dir as int) && name@ != dot() && dir_find(old(self).entries_of(dir as int), name@) is None ==> match next_free(
                old(self).nodes(),
                old(self).last_spec(),
                1,
            ) {
                Some(c) => r == Ok::<(), Errno>(()) && final(self).last_spec() == c && final(self).nodes() == old(self).nodes().update(
                    c,
                    Some(NodeView::Directory { parent: Some(dir), entries: Seq::empty() }),
                ).update(
                    dir as int,
                    Some(with_entry(old(self).nodes()[dir as int]->0, name@, c as InodeNum)),
                ),
                None => r == Err::<(), Errno>(Errno::ENOSPC) && final(self).nodes() == old(self).nodes() && final(self).last_spec() == old(self).last_spec(),
            },
    {
        if !self.is_directory(dir) {
            return Err(Errno::ENOTDIR);
        }
        if is_dot(name) {
            return Err(Errno::EEXIST);
        }
        let found = find_entry(&self.dir_ref(dir).entries, name);
        if found.is_some() {
            return Err(Errno::EEXIST);
        }
        let ni = match self.alloc_dir(dir) {
            Ok(n) => n,
            Err(e) => return Err(e),
        };
        proof {
            lemma_next_free_in_range(old(self).nodes(), old(self).last_spec(), 1);
            assert(self.nodes()[dir as int] == old(self).nodes()[dir as int]);
        }
        self.add_entry(dir, name, ni);
        Ok(())
    }

    /// Add the entry `name` for `from` to directory `dir`. `EISDIR` where
    /// `from` is a directory; `EEXIST` where the name is `.` or taken.
    pub fn link(&mut self, dir: InodeNum, from: InodeNum, name: &[u8]) -> (r: KResult<()>)
        requires
            old(self).wf(),
            in_use(old(self).nodes(), dir),
            in_use(old(self).nodes(), from),
        ensures
            final(self).wf(),
            final(self).last_spec() == old(self).last_spec(),
            !old(self).is_dir(dir as int) ==> r == Err::<(), Errno>(Errno::ENOTDIR) && final(self).nodes()
                == old(self).nodes(),
            old(self).is_dir(dir as int) && old(self).is_dir(from as int) ==> r == Err::<(), Errno>(Errno::EISDIR) && final(self).nodes() == old(self).nodes(),
            old(self).is_dir(dir as int) && !old(self).is_dir(from as int) && (name@ == dot() || dir_find(
                old(self).entries_of(dir as int),
                name@,
            ) is Some) ==> r == Err::<(), Errno>(Errno::EEXIST) && final(self).nodes() == old(self).nodes(),
            old(self).is_dir(dir as int) && !old(self).is_dir(from as int) && name@ != dot() && dir_find(
                old(self).entries_of(dir as int),
                name@,
            ) is None ==> r == Ok::<(), Errno>(()) && final(self).nodes() == old(self).nodes().update(
                dir as int,
                Some(with_entry(old(self).nodes()[dir as int]->0, name@, from)),
            ),
    {
        if !self.is_directory(dir) {
            return Err(Errno::ENOTDIR);
        }
        let is_dir = match &self.inodes[from] {
            Some(n) => n.get_mode() == DIRECTORY,
            None => false,
        };
        proof {
            assert(self.nodes()[from as int] == Some(self.inodes@[from as int]->0.view()));
        }
        if is_dir {
            return Err(Errno::EISDIR);
        }
        if is_dot(name) {
            return Err(Errno::EEXIST);
        }
        let found = find_entry(&self.dir_ref(dir).entries, name);
        if found.is_some() {
            return Err(Errno::EEXIST);
        }
        self.add_entry(dir, name, from);
        Ok(())
    }

    /// The entry at `off` of directory `dir`: `.` first, then `..`, then its
    /// entries in the order they were made, each taking one slot. `EOK` once
    /// `off` is past the last.
    pub fn readdir(&self, dir: InodeNum, off: usize) -> (r: KResult<(usize, DirEnt)>)
        requires
            self.wf(),
            in_use(self.nodes(), dir),
            off < usize::MAX,
        ensures
            !self.is_dir(dir as int) ==> r == Err::<(usize, DirEnt), Errno>(Errno::ENOTDIR),
            self.is_dir(dir as int) && off >= self.entries_of(dir as int).len() + 2 ==> r == Err::<(usize, DirEnt), Errno>(
                Errno::EOK,
            ),
            self.is_dir(dir as int) && off == 0 ==> (r matches Ok((1, e)) && e.inode == dir && e.offset == 1 && e.name@ == dot()),
            self.is_dir(dir as int) && off == 1 ==> (r matches Ok((1, e)) && e.inode == (match self.parent_of(dir as int) {
                Some(p) => p,
                None => dir,
            }) && e.offset == 2 && e.name@ == dotdot()),
            self.is_dir(dir as int) && 2 <= off < self.entries_of(dir as int).len() + 2 ==> (r matches Ok((1, e)) && e.inode
                == self.entries_of(dir as int)[off - 2].1 && e.offset == off + 1 && e.name@
                == self.entries_of(dir as int)[off - 2].0),
    {
        if !self.is_directory(dir) {
            return Err(Errno::ENOTDIR);
        }
        let d = self.dir_ref(dir);
        let n = d.entries.len();
        proof {
            assert(n == self.entries_of(dir as int).len());
        }
        if off >= n && off - n >= 2 {
            Err(Errno::EOK)
        } else if off == 0 {
            Ok((1, DirEnt { inode: dir, offset: 1, name: dot_name() }))
        } else if off == 1 {
            let p = match d.parent {
                Some(p) => p,
                None => dir,
            };
            Ok((1, DirEnt { inode: p, offset: 2, name: dotdot_name() }))
        } else {
            let e = &d.entries[off - 2];
            proof {
                assert(self.entries_of(dir as int)[off - 2] == entry_view(d.entries@[off - 2]));
            }
            Ok((1, DirEnt { inode: e.inode, offset: off + 1, name: e.name.clone() }))
        }
    }
}

/// The bytes of `.`.
fn dot_name() -> (r: Vec<u8>)
    ensures
        r@ == dot(),
{
    let mut v: Vec<u8> = Vec::new();
    v.push(0x2e);
    assert(v@ =~= dot());
    v
}

/// The bytes of `..`.
fn dotdot_name() -> (r: Vec<u8>)
    ensures
        r@ == dotdot(),
{
    let mut v: Vec<u8> = Vec::new();
    v.push(0x2e);
    v.push(0x2e);
    assert(v@ =~= dotdot());
    v
}


/// An entry added under a name that was free is the first of that name.
proof fn lemma_dir_find_push(entries: Seq<(Seq<u8>, InodeNum)>, name: Seq<u8>, ino: InodeNum, other: Seq<u8>)
    requires
        dir_find(entries, name) is None,
    ensures
        dir_find(entries.push((name, ino)), name) == Some(ino),
        other != name ==> dir_find(entries.push((name, ino)), other) == dir_find(entries, other),
    decreases entries.len(),
{
    let t = entries.push((name, ino));
    if entries.len() == 0 {
        assert(t.drop_first() =~= Seq::<(Seq<u8>, InodeNum)>::empty());
    } else {
        assert(t.drop_first() =~= entries.drop_first().push((name, ino)));
        lemma_dir_find_push(entries.drop_first(), name, ino, other);
    }
}

/// A file made under a free name in a directory is what looking that name up
/// there finds, and every other name finds what it found before.
pub proof fn lemma_create_lookup(
    s: Seq<Option<NodeView>>,
    dir: InodeNum,
    name: Seq<u8>,
    c: int,
    n: NodeView,
    other: Seq<u8>,
)
    requires
        s.len() == MAX_INODES,
        dir < MAX_INODES,
        s[dir as int] matches Some(NodeView::Directory { .. }),
        name != dot(),
        name != dotdot(),
        dir_find(s[dir as int]->0->Directory_entries, name) is None,
        0 <= c < MAX_INODES,
        c != dir,
    ensures
        lookup_spec(
            s.update(c, Some(n)).update(dir as int, Some(with_entry(s[dir as int]->0, name, c as InodeNum))),
            dir,
            name,
        ) == Ok::<InodeNum, Errno>(c as InodeNum),
        other != name ==> lookup_spec(
            s.update(c, Some(n)).update(dir as int, Some(with_entry(s[dir as int]->0, name, c as InodeNum))),
            dir,
            other,
        ) == lookup_spec(s, dir, other),
{
    lemma_dir_find_push(s[dir as int]->0->Directory_entries, name, c as InodeNum, other);
}

/// Bytes written inside a file are what a read of as many bytes there gives
/// back. (A write that reaches past the end of the file does not make the
/// file longer than its offset, so this holds only inside the file.)
pub proof fn lemma_write_read(data: Seq<u8>, len: nat, off: int, bytes: Seq<u8>)
    requires
        data.len() == MAX_FILE_LEN,
        0 <= off,
        off + bytes.len() <= len <= MAX_FILE_LEN,
    ensures
        ({
            let len2: nat = if off > len { off as nat } else { len };
            let end = read_end(off, bytes.len() as int, len2 as int);
            &&& end == off + bytes.len()
            &&& write_data(data, len, off, bytes).subrange(off, end) == bytes
        }),
{
    let d2 = write_data(data, len, off, bytes);
    assert(d2.subrange(off, off + bytes.len()) =~= bytes);
}

/// The scan never hands out an inode in use, nor the root's.
pub proof fn lemma_get_inode_free(s: Seq<Option<NodeView>>, last: int)
    requires
        s.len() == MAX_INODES,
    ensures
        next_free(s, last, 1) matches Some(c) ==> 0 <= c < NUM_SLOTS && s[c] is None,
{
    lemma_next_free_in_range(s, last, 1);
}

/// What a lookup in a directory in use finds is in use.
pub proof fn lemma_lookup_in_use(s: Seq<Option<NodeView>>, dir: InodeNum, name: Seq<u8>)
    requires
        nodes_wf(s),
        in_use(s, dir),
        s[dir as int] matches Some(NodeView::Directory { .. }),
    ensures
        lookup_spec(s, dir, name) matches Ok(x) ==> in_use(s, x),
{
    let n = s[dir as int]->0;
    assert(refs_ok(s));
    assert(s[dir as int] == Some(n));
    lemma_dir_find_names(n->Directory_entries, name);
}

/// The first entry of a name is one of the entries.
proof fn lemma_dir_find_names(entries: Seq<(Seq<u8>, InodeNum)>, name: Seq<u8>)
    ensures
        dir_find(entries, name) matches Some(i) ==> exists|k: int| 0 <= k < entries.len() && entries[k].1 == i,
    decreases entries.len(),
{
    if entries.len() > 0 && entries[0].0 != name {
        lemma_dir_find_names(entries.drop_first(), name);
        if dir_find(entries.drop_first(), name) is Some {
            let k = choose|k: int| 0 <= k < entries.drop_first().len() && entries.drop_first()[k].1 == dir_find(entries.drop_first(), name)->0;
            assert(entries[k + 1].1 == dir_find(entries, name)->0);
        }
    } else if entries.len() > 0 {
        assert(entries[0].1 == dir_find(entries, name)->0);
    }
}

/// A scan answer is a slot other than the root's.
proof fn lemma_next_free_in_range(s: Seq<Option<NodeView>>, last: int, k: int)
    requires
        s.len() == MAX_INODES,
    ensures
        next_free(s, last, k) matches Some(c) ==> 0 <= c < NUM_SLOTS && s[c] is None,
    decreases NUM_SLOTS - k,
{
    if k >= NUM_SLOTS || k < 1 {
    } else if s[(last + k) % (NUM_SLOTS as int)] is None {
    } else {
        lemma_next_free_in_range(s, last, k + 1);
    }
}

/// A page of zeros.
fn zero_page() -> (r: Vec<u8>)
    ensures
        r@.len() == MAX_FILE_LEN,
        forall|i: int| 0 <= i < MAX_FILE_LEN ==> r@[i] == 0,
{
    let mut v: Vec<u8> = Vec::new();
    while v.len() < MAX_FILE_LEN
        invariant
            v@.len() <= MAX_FILE_LEN,
            forall|i: int| 0 <= i < v@.len() ==> v@[i] == 0,
        decreases MAX_FILE_LEN - v@.len(),
    {
        v.push(0);
    }
    v
}

} // verus!
