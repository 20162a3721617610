//! Device ids and the device traits.
use vstd::prelude::*;
use crate::base::errno::KResult;

verus! {

/// The id number of a device: a major number in the high byte and a minor
/// number in the low byte.
#[derive(Clone, Copy, Debug, PartialEq, Eq, Structural)]
pub struct DeviceId(pub u16);

impl DeviceId {
    /// The major number that a raw id encodes.
    pub open spec fn major(self) -> int {
        self.0 as int / 256
    }

    /// The minor number that a raw id encodes.
    pub open spec fn minor(self) -> int {
        self.0 as int % 256
    }

    /// Create a device id with the given major and minor numbers.
    pub fn create(major: u8, minor: u8) -> (r: DeviceId)
        ensures
            r.0 == major as int * 256 + minor as int,
    {
        let r = DeviceId(((major as u16) << 8u16) | (minor as u16));
        assert(((major as u16) << 8u16) | (minor as u16) == (major as u16) * 256 + (minor as u16))
            by (bit_vector);
        r
    }

    /// Get the major device id number.
    pub fn get_major(&self) -> (r: u8)
        ensures
            r == self.major(),
    {
        let dev = self.0;
        assert((dev >> 8u16) == dev / 256) by (bit_vector);
        (dev >> 8u16) as u8
    }

    /// Get the minor device id number.
    pub fn get_minor(&self) -> (r: u8)
        ensures
            r == self.minor(),
    {
        let dev = self.0;
        assert((dev & 0xffu16) == dev % 256) by (bit_vector);
        (dev & 0xff) as u8
    }
}

/// An id built from a major and a minor number gives them back, and every id
/// is the one built from its own major and minor numbers.
pub proof fn lemma_device_id_round_trip(major: u8, minor: u8, id: DeviceId)
    ensures
        DeviceId((major as int * 256 + minor as int) as u16).major() == major,
        DeviceId((major as int * 256 + minor as int) as u16).minor() == minor,
        id.major() * 256 + id.minor() == id.0,
        0 <= id.major() < 256,
{
}

/// A device capable of reading in units of `T`.
pub trait RDevice<T> {
    /// Read `buf.len()` objects from the device starting at `offset`. Returns
    /// the number of objects read, or an error number.
    fn read_from(&self, offset: usize, buf: &mut [T]) -> KResult<usize>;
}

/// A device capable of writing in units of `T`.
pub trait WDevice<T> {
    /// Write the buffer to the device starting at `offset`. Returns the number
    /// of objects written, or an error number.
    fn write_to(&self, offset: usize, buf: &[T]) -> KResult<usize>;
}

/// A device capable of reading in units of `T` when mutably held.
pub trait RDeviceMut<T> {
    /// The device's state allows reading.
    spec fn readable(&self) -> bool;

    /// Read `buf.len()` objects from the device starting at `offset`. Returns
    /// the number of objects read, or an error number.
    fn read_from(&mut self, offset: usize, buf: &mut [T]) -> (r: KResult<usize>)
        requires
            old(self).readable(),
        ensures
            final(self).readable(),
    ;
}

/// A device capable of writing in units of `T` when mutably held.
pub trait WDeviceMut<T> {
    /// The device's state allows writing.
    spec fn writable(&self) -> bool;

    /// Write the buffer to the device starting at `offset`. Returns the number
    /// of objects written, or an error number.
    fn write_to(&mut self, offset: usize, buf: &[T]) -> (r: KResult<usize>)
        requires
            old(self).writable(),
        ensures
            final(self).writable(),
    ;
}

/// A device that can both read and write.
pub trait Device<T>: WDevice<T> + RDevice<T> {
}

} // verus!
