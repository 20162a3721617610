//! The memory devices: `/dev/null`, which swallows writes and reads nothing,
//! and `/dev/zero`, which swallows writes and reads zeros.
use vstd::prelude::*;
use crate::base::devices::{DeviceId, RDevice, WDevice};
use crate::base::errno::{Errno, KResult};

verus! {

/// First initialisation stage: nothing to do.
pub fn init_stage1() {
}

/// Second initialisation stage: nothing to do.
pub fn init_stage2() {
}

/// Third initialisation stage: nothing to do.
pub fn init_stage3() {
}

/// The id of `/dev/null`: major 3, minor 0.
pub fn null_devid() -> (r: DeviceId)
    ensures
        r.major() == 3,
        r.minor() == 0,
{
    DeviceId::create(3, 0)
}

/// The id of `/dev/zero`: major 3, minor 1.
pub fn zero_devid() -> (r: DeviceId)
    ensures
        r.major() == 3,
        r.minor() == 1,
{
    DeviceId::create(3, 1)
}

/// The device for `/dev/null`.
pub struct NullDev;

impl NullDev {
    /// The null device.
    pub fn new() -> (r: NullDev) {
        NullDev
    }

    /// Whether a cache should keep this device: it should not.
    pub fn is_still_useful(&self) -> (r: bool)
        ensures
            !r,
    {
        false
    }

    /// The id of the memory object behind a mapping of the device.
    pub fn get_id(&self) -> (r: (DeviceId, u32))
        ensures
            r.0.major() == 3,
            r.0.minor() == 0,
            r.1 == 0,
    {
        (null_devid(), 0)
    }

    /// Fill a page of a mapping of the device: with zeros.
    pub fn fill_page(&self, page: &mut [u8]) -> (r: KResult<()>)
        ensures
            r is Ok,
            final(page)@.len() == old(page)@.len(),
            forall|i: int| 0 <= i < final(page)@.len() ==> final(page)@[i] == 0,
    {
        zero_fill(page);
        Ok(())
    }

    /// A page of a mapping was dirtied: nothing to do.
    pub fn dirty_page(&self) -> (r: KResult<()>)
        ensures
            r is Ok,
    {
        Ok(())
    }

    /// A page of a mapping is to be written back: nothing to do.
    pub fn clean_page(&self) -> (r: KResult<()>)
        ensures
            r is Ok,
    {
        Ok(())
    }
}

impl WDevice<u8> for NullDev {
    /// Writes always succeed on the null device, and do nothing.
    fn write_to(&self, offset: usize, buf: &[u8]) -> (r: KResult<usize>)
        ensures
            r == Ok::<usize, Errno>(buf@.len() as usize),
    {
        Ok(buf.len())
    }
}

impl RDevice<u8> for NullDev {
    /// Reads succeed but get nothing on the null device.
    fn read_from(&self, offset: usize, buf: &mut [u8]) -> (r: KResult<usize>)
        ensures
            r == Ok::<usize, Errno>(0),
            final(buf)@ == old(buf)@,
    {
        Ok(0)
    }
}

/// Sets every byte of `buf` to zero.
fn zero_fill(buf: &mut [u8])
    ensures
        final(buf)@.len() == old(buf)@.len(),
        forall|i: int| 0 <= i < final(buf)@.len() ==> final(buf)@[i] == 0,
{
    let mut i: usize = 0;
    while i < buf.len()
        invariant
            i <= buf@.len(),
            buf@.len() == old(buf)@.len(),
            forall|j: int| 0 <= j < i ==> buf@[j] == 0,
        decreases buf@.len() - i,
    {
        buf[i] = 0;
        i = i + 1;
    }
}

/// The device for `/dev/zero`; each one has a number of its own.
pub struct ZeroDev(pub u32);

impl ZeroDev {
    /// A zero device numbered after the last one handed out: `last` is the
    /// number handed out before and becomes this device's number. Numbers
    /// wrap around after `u32::MAX`.
    pub fn new(last: &mut u32) -> (r: ZeroDev)
        ensures
            *final(last) == (if *old(last) == u32::MAX { 0 } else { *old(last) + 1 }),
            r.0 == *final(last),
    {
        let next = last.wrapping_add(1);
        *last = next;
        ZeroDev(next)
    }

    /// Whether a cache should keep this device: it should not.
    pub fn is_still_useful(&self) -> (r: bool)
        ensures
            !r,
    {
        false
    }

    /// The id of the memory object behind a mapping of the device.
    pub fn get_id(&self) -> (r: (DeviceId, u32))
        ensures
            r.0.major() == 3,
            r.0.minor() == 1,
            r.1 == self.0,
    {
        (zero_devid(), self.0)
    }

    /// Fill a page of a mapping of the device: with zeros.
    pub fn fill_page(&self, page: &mut [u8]) -> (r: KResult<()>)
        ensures
            r is Ok,
            final(page)@.len() == old(page)@.len(),
            forall|i: int| 0 <= i < final(page)@.len() ==> final(page)@[i] == 0,
    {
        zero_fill(page);
        Ok(())
    }

    /// A page of a mapping was dirtied: nothing to do.
    pub fn dirty_page(&self) -> (r: KResult<()>)
        ensures
            r is Ok,
    {
        Ok(())
    }

    /// A page of a mapping is to be written back: a zero device has nowhere
    /// to write it.
    pub fn clean_page(&self) -> (r: KResult<()>)
        ensures
            r == Err::<(), Errno>(Errno::ENOTSUP),
    {
        Err(Errno::ENOTSUP)
    }
}

impl WDevice<u8> for ZeroDev {
    /// Writes always succeed on the zero device, and do nothing.
    fn write_to(&self, offset: usize, buf: &[u8]) -> (r: KResult<usize>)
        ensures
            r == Ok::<usize, Errno>(buf@.len() as usize),
    {
        Ok(buf.len())
    }
}

impl RDevice<u8> for ZeroDev {
    /// Reads succeed and fill the whole buffer with zeros.
    fn read_from(&self, offset: usize, buf: &mut [u8]) -> (r: KResult<usize>)
        ensures
            r == Ok::<usize, Errno>(old(buf)@.len() as usize),
            final(buf)@.len() == old(buf)@.len(),
            forall|i: int| 0 <= i < final(buf)@.len() ==> final(buf)@[i] == 0,
    {
        zero_fill(buf);
        Ok(buf.len())
    }
}

} // verus!
