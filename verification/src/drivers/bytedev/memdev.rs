//! Ids of the memory devices among the byte devices.
use vstd::prelude::*;
use crate::base::devices::DeviceId;

verus! {

/// First initialisation stage: nothing to do.
pub fn init_stage1() {
}

/// Second initialisation stage: nothing to do.
pub fn init_stage2() {
}

/// Third initialisation stage: nothing to do.
pub fn init_stage3() {
}

/// The id of the null byte device: major 3, minor 0.
pub fn null_devid() -> (r: DeviceId)
    ensures
        r.major() == 3,
        r.minor() == 0,
{
    DeviceId::create(3, 0)
}

/// The id of the zero byte device: major 4, minor 0.
pub fn zero_devid() -> (r: DeviceId)
    ensures
        r.major() == 4,
        r.minor() == 0,
{
    DeviceId::create(4, 0)
}

} // verus!
