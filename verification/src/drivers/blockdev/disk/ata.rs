//! ATA disks: the channels they sit on, and the decisions of a transfer
//! (which registers get which values, and what a status means).
use vstd::prelude::*;
use crate::base::devices::DeviceId;
use crate::base::errno::{Errno, KResult};
use crate::drivers::blockdev::disk::dma::Prd;
use crate::procs::interrupt::{DISK_PRIMARY, DISK_SECONDARY};

verus! {

/// The irq of the primary channel.
pub const IRQ_DISK_PRIMARY: u16 = 14;

/// The irq of the secondary channel.
pub const IRQ_DISK_SECONDARY: u16 = 15;

/// The bytes of a block: a page.
pub const BLOCK_SIZE: usize = 4096;

/// The major number of the disk devices.
pub const DISK_MAJOR: u8 = 1;

/// The number of disks set up.
pub const NDISKS: usize = 1;

/// The number of ATA channels.
pub const NUM_CHANNELS: usize = 2;

/// The bytes of a sector.
pub const SECTOR_SIZE: usize = 512;

/// The word of the identification data that holds the size in sectors.
pub const IDENT_MAX_LBA: usize = 30;

/// The words of identification data a drive sends.
pub const IDENT_BUFSIZE: usize = 256;

pub const PRIMARY_CTRL: u16 = 0x3f0;
pub const PRIMARY_CMD: u16 = 0x1f0;
pub const SECONDARY_CTRL: u16 = 0x370;
pub const SECONDARY_CMD: u16 = 0x170;

/// Drive/head register: the master drive.
pub const DRIVEHEAD_MASTER: u8 = 0xa0;
/// Drive/head register: the slave drive.
pub const DRIVEHEAD_SLAVE: u8 = 0xb0;
/// Drive/head register: logical block addressing.
pub const DRIVEHEAD_LBA: u8 = 0x40;

pub const REGISTER_DATA: u8 = 0x00;
pub const REGISTER_ERROR: u8 = 0x01;
pub const REGISTER_SECCOUNT0: u8 = 0x02;
pub const REGISTER_LBA0: u8 = 0x03;
pub const REGISTER_LBA1: u8 = 0x04;
pub const REGISTER_LBA2: u8 = 0x05;
pub const REGISTER_DRIVEHEAD: u8 = 0x06;
pub const REGISTER_COMMAND: u8 = 0x07;
pub const REGISTER_STATUS: u8 = 0x07;
pub const REGISTER_CONTROL: u8 = 0x06;
pub const REGISTER_ALTSTATUS: u8 = 0x06;

/// Status: busy.
pub const STATUS_BSY: u8 = 0x80;
/// Status: drive ready.
pub const STATUS_DRDY: u8 = 0x40;
/// Status: data request ready.
pub const STATUS_DRQ: u8 = 0x08;
/// Status: error.
pub const STATUS_ERR: u8 = 0x01;

pub const COMMAND_READ_DMA: u8 = 0xc8;
pub const COMMAND_WRITE_DMA: u8 = 0xca;
pub const COMMAND_IDENTIFY: u8 = 0xec;

/// First initialisation stage: nothing to do.
pub fn init_stage1() {
}

/// An ATA channel: its command and control ports, its interrupt, its device
/// id and its bus master's port.
#[derive(Clone, Copy, Debug, PartialEq, Eq, Structural)]
pub struct Channel {
    pub cmd: u16,
    pub ctrl: u16,
    pub intr: u8,
    pub dev: DeviceId,
    pub busmaster: u16,
}

impl Channel {
    /// The channel's number, which selects its DMA set-up: its minor number.
    pub fn get_channel_num(&self) -> (r: u8)
        ensures
            r == self.dev.minor(),
    {
        self.dev.get_minor()
    }
}

/// The channel numbered `i`, before its bus master is set up: the primary
/// channel for 0 and the secondary one for 1.
pub fn default_channel(i: usize) -> (r: Channel)
    requires
        i < NUM_CHANNELS,
    ensures
        r.cmd == (if i == 0 { PRIMARY_CMD } else { SECONDARY_CMD }),
        r.ctrl == (if i == 0 { PRIMARY_CTRL } else { SECONDARY_CTRL }),
        r.intr == (if i == 0 { DISK_PRIMARY } else { DISK_SECONDARY }),
        r.dev.major() == DISK_MAJOR,
        r.dev.minor() == i,
        r.busmaster == 0,
{
    if i == 0 {
        Channel {
            cmd: PRIMARY_CMD,
            ctrl: PRIMARY_CTRL,
            intr: DISK_PRIMARY,
            dev: DeviceId::create(DISK_MAJOR, 0),
            busmaster: 0,
        }
    } else {
        Channel {
            cmd: SECONDARY_CMD,
            ctrl: SECONDARY_CTRL,
            intr: DISK_SECONDARY,
            dev: DeviceId::create(DISK_MAJOR, 1),
            busmaster: 0,
        }
    }
}

/// What the identification of a drive learns from a status read.
#[derive(Clone, Copy, Debug, PartialEq, Eq, Structural)]
pub enum IdentifyStep {
    /// The drive reported an error.
    Failed,
    /// The drive has its identification data ready.
    Ready,
    /// Poll again.
    Wait,
}

/// Whether a drive answered the identify command: a status of zero means no drive.
pub fn drive_exists(status: u8) -> (r: bool)
    ensures
        r == (status != 0),
{
    status != 0
}

/// Whether the drive is still busy.
pub fn is_busy(status: u8) -> (r: bool)
    ensures
        r == (status & STATUS_BSY != 0),
{
    status & STATUS_BSY != 0
}

/// Once the drive is not busy: an error fails, a data request means the data
/// is ready, anything else is polled again.
pub fn identify_step(status: u8) -> (r: IdentifyStep)
    ensures
        status & STATUS_ERR != 0 ==> r == IdentifyStep::Failed,
        status & STATUS_ERR == 0 && status & STATUS_DRQ != 0 ==> r == IdentifyStep::Ready,
        status & STATUS_ERR == 0 && status & STATUS_DRQ == 0 ==> r == IdentifyStep::Wait,
{
    if status & STATUS_ERR != 0 {
        IdentifyStep::Failed
    } else if status & STATUS_DRQ != 0 {
        IdentifyStep::Ready
    } else {
        IdentifyStep::Wait
    }
}

/// The size in sectors that a drive's identification data gives.
pub fn ident_size(ident: &[u32]) -> (r: usize)
    requires
        ident@.len() == IDENT_BUFSIZE,
    ensures
        r == ident@[IDENT_MAX_LBA as int] as usize,
{
    ident[IDENT_MAX_LBA] as usize
}

/// The registers that start a transfer of one block.
#[derive(Clone, Copy, Debug, PartialEq, Eq, Structural)]
pub struct AtaRequest {
    /// The number of sectors.
    pub seccount: u8,
    /// The first sector, least significant byte first.
    pub lba0: u8,
    pub lba1: u8,
    pub lba2: u8,
    /// The command: a DMA read or a DMA write.
    pub command: u8,
}

/// An ATA disk: its channel, its size in sectors, how many sectors make a
/// block, and its DMA descriptor. The lock and the wait queue that guard a
/// transfer belong to whoever runs it.
pub struct ATADisk {
    pub channel: Channel,
    pub is_master: bool,
    pub size: usize,
    pub sectors_per_block: usize,
    pub prd: Prd,
}

impl ATADisk {
    /// A disk on `channel` of `size` sectors, with an empty DMA descriptor.
    pub fn create(channel: Channel, is_master: bool, size: usize, sectors_per_block: usize) -> (r:
        ATADisk)
        ensures
            r.channel == channel,
            r.is_master == is_master,
            r.size == size,
            r.sectors_per_block == sectors_per_block,
            r.prd.addr == 0,
            r.prd.count == 0,
            r.prd.last == 0,
    {
        ATADisk { channel, is_master, size, sectors_per_block, prd: Prd::new() }
    }

    /// The registers for a transfer of `block`, or `EIO` where the block lies
    /// past the end of the disk.
    pub fn request(&self, block: usize, to_write: bool) -> (r: KResult<AtaRequest>)
        requires
            (block + 1) * self.sectors_per_block <= usize::MAX,
        ensures
            block * self.sectors_per_block + self.sectors_per_block > self.size ==> r == Err::<
                AtaRequest,
                Errno,
            >(Errno::EIO),
            block * self.sectors_per_block + self.sectors_per_block <= self.size ==> r is Ok,
            r matches Ok(q) ==> {
                &&& q.seccount == self.sectors_per_block % 256
                &&& q.lba0 == (block * self.sectors_per_block) % 256
                &&& q.lba1 == (block * self.sectors_per_block) / 256 % 256
                &&& q.lba2 == (block * self.sectors_per_block) / 65536 % 256
                &&& q.command == (if to_write { COMMAND_WRITE_DMA } else { COMMAND_READ_DMA })
            },
    {
        assert(block * self.sectors_per_block + self.sectors_per_block == (block + 1)
            * self.sectors_per_block) by (nonlinear_arith);
        assert(block * self.sectors_per_block <= usize::MAX) by (nonlinear_arith)
            requires
                (block + 1) * self.sectors_per_block <= usize::MAX,
        ;
        let sec = block * self.sectors_per_block;
        if sec + self.sectors_per_block > self.size {
            return Err(Errno::EIO);
        }
        let spb = self.sectors_per_block;
        assert((spb & 0xff) == spb % 256) by (bit_vector);
        assert((sec & 0xff) == sec % 256) by (bit_vector);
        assert(((sec >> 8usize) & 0xff) == sec / 256 % 256) by (bit_vector);
        assert(((sec >> 16usize) & 0xff) == sec / 65536 % 256) by (bit_vector);
        Ok(
            AtaRequest {
                seccount: (spb & 0xff) as u8,
                lba0: (sec & 0xff) as u8,
                lba1: ((sec >> 8usize) & 0xff) as u8,
                lba2: ((sec >> 16usize) & 0xff) as u8,
                command: if to_write {
                    COMMAND_WRITE_DMA
                } else {
                    COMMAND_READ_DMA
                },
            },
        )
    }
}

/// The outcome of a transfer from the status read after it: `EIO` where the
/// error bit is set.
pub fn transfer_result(status: u8) -> (r: KResult<()>)
    ensures
        r is Ok <==> status & STATUS_ERR == 0,
        r is Err ==> r == Err::<(), Errno>(Errno::EIO),
{
    if status & STATUS_ERR != 0 {
        Err(Errno::EIO)
    } else {
        Ok(())
    }
}

/// The disk among `channel_intrs` that an interrupt on vector `intr` is for:
/// the first whose channel raises it.
pub fn disk_for_interrupt(channel_intrs: &[u8], intr: u32) -> (r: Option<usize>)
    ensures
        match r {
            Some(i) => i < channel_intrs@.len() && channel_intrs@[i as int] as u32 == intr
                && forall|j: int| 0 <= j < i ==> channel_intrs@[j] as u32 != intr,
            None => forall|j: int| 0 <= j < channel_intrs@.len() ==> channel_intrs@[j] as u32 != intr,
        },
{
    let mut i: usize = 0;
    while i < channel_intrs.len()
        invariant
            i <= channel_intrs@.len(),
            forall|j: int| 0 <= j < i ==> channel_intrs@[j] as u32 != intr,
        decreases channel_intrs@.len() - i,
    {
        if channel_intrs[i] as u32 == intr {
            return Some(i);
        }
        i = i + 1;
    }
    None
}

} // verus!
