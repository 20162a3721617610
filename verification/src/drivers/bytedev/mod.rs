//! Byte devices: the terminals, and the registry of devices by id.
use vstd::prelude::*;
use crate::base::devices::DeviceId;
use std::collections::BTreeMap;

pub mod memdev;
pub mod tty;

verus! {

/// Initialisation that needs no memory allocation.
pub fn init_stage1() {
    tty::init_stage1();
}

/// The device registered under `id` in the registry `m` (keyed by raw id).
pub open spec fn find_spec<D>(m: Map<u16, D>, id: DeviceId) -> Option<D> {
    if m.contains_key(id.0) {
        Some(m[id.0])
    } else {
        None
    }
}

/// The devices registered, by id; an id is registered at most once.
pub struct DeviceTree<D> {
    devices: BTreeMap<u16, D>,
}

impl<D> DeviceTree<D> {
    /// The registered devices, by raw id.
    pub closed spec fn entries(&self) -> Map<u16, D> {
        self.devices@
    }

    /// The device registered under `id`, if any.
    pub open spec fn get(&self, id: DeviceId) -> Option<D> {
        find_spec(self.entries(), id)
    }

    /// The number of devices registered.
    pub open spec fn size(&self) -> nat {
        self.entries().len()
    }

    /// A registry with no device.
    pub fn new() -> (r: DeviceTree<D>)
        ensures
            forall|id: DeviceId| r.get(id) is None,
            r.size() == 0,
    {
        DeviceTree { devices: BTreeMap::new() }
    }

    /// The device registered under `id`, if any.
    pub fn lookup(&self, id: DeviceId) -> (r: Option<&D>)
        ensures
            match r {
                Some(d) => self.get(id) == Some(*d),
                None => self.get(id) is None,
            },
    {
        broadcast use {vstd::std_specs::btree::group_btree_axioms, vstd::laws_cmp::group_laws_cmp};
        self.devices.get(&id.0)
    }

    /// Registers `dev` under `id`, unless some device already is: returns
    /// whether it was registered.
    pub fn register(&mut self, id: DeviceId, dev: D) -> (r: bool)
        ensures
            r == (old(self).get(id) is None),
            r ==> final(self).get(id) == Some(dev),
            r ==> final(self).size() == old(self).size() + 1,
            !r ==> final(self).entries() == old(self).entries(),
            forall|other: DeviceId| other != id ==> final(self).get(other) == old(self).get(other),
    {
        broadcast use {vstd::std_specs::btree::group_btree_axioms, vstd::laws_cmp::group_laws_cmp};
        if self.devices.contains_key(&id.0) {
            false
        } else {
            self.devices.insert(id.0, dev);
            proof {
                assert(self.devices@.dom() =~= old(self).devices@.dom().insert(id.0));
            }
            true
        }
    }
}

/// Registering a device under a free id makes a lookup of that id find it and
/// leaves every other id as it was.
pub proof fn lemma_register_lookup<D>(m: Map<u16, D>, id: DeviceId, dev: D, other: DeviceId)
    requires
        find_spec(m, id) is None,
    ensures
        find_spec(m.insert(id.0, dev), id) == Some(dev),
        other != id ==> find_spec(m.insert(id.0, dev), other) == find_spec(m, other),
{
}

} // verus!
