//! Process ids and states, and the overlapping memory copy the kernel links in.
use vstd::prelude::*;

verus! {

/// A process id.
#[derive(Clone, Copy, Debug, PartialEq, Eq, Structural, PartialOrd, Ord)]
pub struct ProcId(pub usize);

impl ProcId {
    /// A fresh process id; none is handed out yet.
    pub fn new() -> (r: Option<ProcId>)
        ensures
            r is None,
    {
        None
    }
}

/// `mem` after copying `n` bytes from position `src` to position `dest`: the
/// destination range holds what the source range held before.
pub open spec fn moved(mem: Seq<u8>, dest: int, src: int, n: int) -> Seq<u8> {
    Seq::new(mem.len(), |i: int| if dest <= i < dest + n { mem[src + i - dest] } else { mem[i] })
}

/// Copy `n` bytes of `mem` from position `src` to position `dest`, right also
/// where the two ranges overlap: from the last byte down when the source lies
/// before the destination, else from the first byte up.
pub fn memmove(mem: &mut Vec<u8>, dest: usize, src: usize, n: usize)
    requires
        dest + n <= old(mem)@.len(),
        src + n <= old(mem)@.len(),
    ensures
        final(mem)@ == moved(old(mem)@, dest as int, src as int, n as int),
{
    let ghost m0 = mem@;
    let len = mem.len();
    if src < dest {
        let mut i = n;
        while i != 0
            invariant
                i <= n,
                src < dest,
                src + n <= m0.len(),
                dest + n <= m0.len(),
                m0.len() == len,
                mem@.len() == m0.len(),
                forall|k: int|
                    0 <= k < m0.len() ==> mem@[k] == if dest + i <= k < dest + n {
                        m0[src + k - dest]
                    } else {
                        m0[k]
                    },
            decreases i,
        {
            i = i - 1;
            let b = mem[src + i];
            mem.set(dest + i, b);
        }
    } else {
        let mut i: usize = 0;
        while i < n
            invariant
                i <= n,
                src >= dest,
                m0.len() == len,
                src + n <= m0.len(),
                dest + n <= m0.len(),
                mem@.len() == m0.len(),
                forall|k: int|
                    0 <= k < m0.len() ==> mem@[k] == if dest <= k < dest + i {
                        m0[src + k - dest]
                    } else {
                        m0[k]
                    },
            decreases n - i,
        {
            let b = mem[src + i];
            mem.set(dest + i, b);
            i = i + 1;
        }
    }
    assert(mem@ =~= moved(m0, dest as int, src as int, n as int));
}

/// Whether a process runs or has died.
#[derive(Clone, Copy, Debug, PartialEq, Eq, Structural)]
pub enum ProcState {
    Running,
    Dead,
}

/// The exit status of a process.
pub type ProcStatus = isize;

} // verus!
