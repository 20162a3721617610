//! The debug modes that are printed, and values that the debug printer shows.
use vstd::prelude::*;
use crate::base::pid::ProcId;

verus! {

/// No debug mode.
pub const NONE: u64 = 0;

/// Every debug mode.
pub const ALL: u64 = 0xffff_ffff_ffff_ffff;

/// Debug mode: core boot code.
pub const CORE: u64 = 0x1u64 << 0;

/// Debug mode: memory management.
pub const MM: u64 = 0x1u64 << 1;

/// Debug mode: boot/init code.
pub const INIT: u64 = 0x1u64 << 2;

/// Debug mode: switching and scheduling.
pub const SCHED: u64 = 0x1u64 << 3;

/// Debug mode: disk driver.
pub const DISK: u64 = 0x1u64 << 4;

/// Debug mode: for resolving temporary problems.
pub const TEMP: u64 = 0x1u64 << 5;

/// Debug mode: kmalloc and the slab allocators.
pub const KMALLOC: u64 = 0x1u64 << 6;

/// Debug mode: page allocation.
pub const PAGEALLOC: u64 = 0x1u64 << 7;

/// Debug mode: traps and interrupts.
pub const INTR: u64 = 0x1u64 << 8;

/// Debug mode: the terminal device.
pub const TERM: u64 = 0x1u64 << 9;

/// Debug mode: fork.
pub const FORK: u64 = 0x1u64 << 10;

/// Debug mode: processes.
pub const PROC: u64 = 0x1u64 << 11;

/// Debug mode: vnode reference counts.
pub const VNREF: u64 = 0x1u64 << 12;

/// Debug mode: page frames.
pub const PFRAME: u64 = 0x1u64 << 13;

/// Debug mode: error conditions.
pub const ERROR: u64 = 0x1u64 << 14;

/// Debug mode: system calls.
pub const SYSCALL: u64 = 0x1u64 << 15;

/// Debug mode: file reference counts.
pub const FREF: u64 = 0x1u64 << 16;

/// Debug mode: page table manipulation.
pub const PGTBL: u64 = 0x1u64 << 17;

/// Debug mode: process break; user memory allocation.
pub const BRK: u64 = 0x1u64 << 18;

/// Debug mode: new process exec.
pub const EXEC: u64 = 0x1u64 << 19;

/// Debug mode: the virtual file system.
pub const VFS: u64 = 0x1u64 << 20;

/// Debug mode: the System V file system.
pub const S5FS: u64 = 0x1u64 << 21;

/// Debug mode: keyboard.
pub const KB: u64 = 0x1u64 << 22;

/// Debug mode: threads.
pub const THR: u64 = 0x1u64 << 23;

/// Debug mode: debug printing.
pub const PRINT: u64 = 0x1u64 << 24;

/// Debug mode: other system calls.
pub const OSYSCALL: u64 = 0x1u64 << 25;

/// Debug mode: virtual memory.
pub const VM: u64 = 0x1u64 << 28;

/// Debug mode: test code.
pub const TEST: u64 = 0x1u64 << 30;

/// Debug mode: test code: passes.
pub const TESTPASS: u64 = 0x1u64 << 31;

/// Debug mode: test code: failures.
pub const TESTFAIL: u64 = 0x1u64 << 32;

/// Debug mode: memory devices (null and zero).
pub const MEMDEV: u64 = 0x1u64 << 33;

/// Debug mode: anonymous memory objects.
pub const ANON: u64 = 0x1u64 << 34;

/// Debug mode: memory area mappings.
pub const VMMAP: u64 = 0x1u64 << 35;

/// Debug mode: the ELF loader.
pub const ELF: u64 = 0x1u64 << 37;

/// Debug mode: user land.
pub const USER: u64 = 0x1u64 << 38;

/// Debug mode: the pinnable cache.
pub const PCACHE: u64 = 0x1u64 << 39;

/// Debug mode: kernel shell messages.
pub const KSHELL: u64 = 0x1u64 << 40;

/// Debug mode: a likely very dangerous operation.
pub const DANGER: u64 = 0x1u64 << 62;

/// Debug mode: panics.
pub const PANIC: u64 = 0x1u64 << 63;

/// The modes printed by default: every mode but those the build disables.
pub fn get_default(disabled: u64) -> (r: u64)
    ensures
        r == ALL & !disabled,
{
    ALL & !disabled
}

/// Which debug modes are printed.
pub struct DebugModes {
    active: u64,
}

impl DebugModes {
    /// The modes printed.
    pub closed spec fn active(&self) -> u64 {
        self.active
    }

    /// Every mode is printed, until `setup` runs.
    pub fn new() -> (r: DebugModes)
        ensures
            r.active() == ALL,
    {
        DebugModes { active: ALL }
    }

    /// Print the default modes, given the modes the build disables.
    pub fn setup(&mut self, disabled: u64)
        ensures
            final(self).active() == ALL & !disabled,
    {
        self.active = get_default(disabled);
    }

    /// The modes printed.
    pub fn get_debug_active(&self) -> (r: u64)
        ensures
            r == self.active(),
    {
        self.active
    }

    /// Stop printing the modes `m`.
    pub fn remove_mode(&mut self, m: u64)
        ensures
            final(self).active() == old(self).active() & !m,
    {
        self.active = self.active & !m;
    }

    /// Print the modes `m` too.
    pub fn add_mode(&mut self, m: u64)
        ensures
            final(self).active() == old(self).active() | m,
    {
        self.active = self.active | m;
    }

    /// Whether a message of the modes `m` is printed: where one of them is.
    pub fn is_printed(&self, m: u64) -> (r: bool)
        ensures
            r == (self.active() & m != NONE),
    {
        self.active & m != NONE
    }
}

/// Removing a mode stops its messages from being printed, and adding it back
/// prints them again; the other modes are untouched either way.
pub proof fn lemma_remove_add_mode(active: u64, m: u64, other: u64)
    ensures
        (active & !m) & m == NONE,
        ((active & !m) | m) & m == m,
        other & m == NONE ==> (active & !m) & other == active & other,
        other & m == NONE ==> ((active & !m) | m) & other == active & other,
{
    assert((active & !m) & m == 0) by (bit_vector);
    assert(((active & !m) | m) & m == m) by (bit_vector);
    assert(other & m == 0 ==> (active & !m) & other == active & other) by (bit_vector);
    assert(other & m == 0 ==> ((active & !m) | m) & other == active & other) by (bit_vector);
}

/// The pid of the current process when there is one, shown in debug lines.
#[derive(Clone, Copy, Debug)]
pub struct MaybePid(pub Option<ProcId>);

} // verus!
