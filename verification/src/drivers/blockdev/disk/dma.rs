//! Physical region descriptors for the bus-master DMA of the disks.
use vstd::prelude::*;

verus! {

/// Offset of the bus master's command register.
pub const REGISTER_COMMAND: u8 = 0;

/// Offset of the bus master's status register.
pub const REGISTER_STATUS: u8 = 0x2;

/// Offset of the bus master's descriptor-table register.
pub const REGISTER_PRD: u8 = 0x4;

/// The bit of a descriptor's `last` field that ends the table.
pub const PRD_LAST: u16 = 0x8000;

/// The status bits that enable DMA on both drives of a channel.
pub const STATUS_DMA_ENABLE: u8 = 0x60;

/// What is written to the status register to acknowledge an interrupt with
/// DMA left enabled.
pub const STATUS_ACKNOWLEDGE: u8 = 0x64;

/// First initialisation stage: nothing to do.
pub fn init_stage1() {
}

/// Second initialisation stage: nothing to do.
pub fn init_stage2() {
}

/// A physical region descriptor, with room to place a copy of it at an
/// address the controller accepts.
pub struct Prd {
    pub addr: u32,
    pub count: u16,
    pub last: u16,
    pub buf: [u8; 128],
}

impl Prd {
    /// An empty descriptor.
    pub fn new() -> (r: Prd)
        ensures
            r.addr == 0,
            r.count == 0,
            r.last == 0,
            forall|i: int| 0 <= i < 128 ==> r.buf@[i] == 0,
    {
        Prd { addr: 0, count: 0, last: 0, buf: [0u8; 128] }
    }

    /// Describe a single region of `count` bytes at physical address `phys`,
    /// the last of its table.
    pub fn load(&mut self, phys: u32, count: u16)
        ensures
            final(self).addr == phys,
            final(self).count == count,
            final(self).last == PRD_LAST,
            final(self).buf == old(self).buf,
    {
        self.addr = phys;
        self.count = count;
        self.last = PRD_LAST;
    }

    /// Clear the copy area once a transfer has ended.
    pub fn reset(&mut self)
        ensures
            final(self).addr == old(self).addr,
            final(self).count == old(self).count,
            final(self).last == old(self).last,
            forall|i: int| 0 <= i < 128 ==> final(self).buf@[i] == 0,
    {
        self.buf = [0u8; 128];
    }
}

/// The command that starts a transfer: bit 0 starts it and bit 2 is set for
/// a write.
pub fn start_command(write: bool) -> (r: u8)
    ensures
        r == (if write { 0b101u8 } else { 0b001u8 }),
{
    if write {
        0b101
    } else {
        0b001
    }
}

/// The status register value that enables DMA on both drives and keeps the
/// other bits.
pub fn status_with_dma(status: u8) -> (r: u8)
    ensures
        r == status | STATUS_DMA_ENABLE,
        r & STATUS_DMA_ENABLE == STATUS_DMA_ENABLE,
{
    let r = status | STATUS_DMA_ENABLE;
    assert((status | 0x60u8) & 0x60u8 == 0x60u8) by (bit_vector);
    r
}

/// How far past `addr` the first 32-byte aligned address lies, where the copy
/// of a descriptor is placed.
pub fn align_offset(addr: usize) -> (r: usize)
    ensures
        r < 32,
        (addr + r) % 32 == 0,
{
    let rem = addr % 32;
    if rem == 0 {
        0
    } else {
        32 - rem
    }
}

} // verus!
