//! Registry of connected devices.
use vstd::prelude::*;
use crate::text::str_eq;

verus! {

/// A device known to the registry.
#[derive(Debug, Clone)]
pub struct ConnectedDevice {
    pub device_id: u32,
    pub udid: String,
    pub name: String,
    pub model: String,
    pub ios_version: String,
    pub connection_type: String,
}

/// Connected devices, in the order they were registered.
pub struct DeviceManager {
    devices: Vec<ConnectedDevice>,
}

impl DeviceManager {
    /// The registered devices.
    pub closed spec fn spec_devices(&self) -> Seq<ConnectedDevice> {
        self.devices@
    }

    /// An empty registry.
    pub fn new() -> (m: Self)
        ensures
            m.spec_devices().len() == 0,
    {
        DeviceManager { devices: Vec::new() }
    }

    /// Register a device at the end.
    pub fn add(&mut self, dev: ConnectedDevice)
        ensures
            final(self).spec_devices() == old(self).spec_devices().push(dev),
    {
        self.devices.push(dev);
    }

    /// The registered devices.
    pub fn list(&self) -> (r: &[ConnectedDevice])
        ensures
            r@ == self.spec_devices(),
    {
        self.devices.as_slice()
    }

    /// The first registered device with this UDID, if any.
    pub fn find_by_udid(&self, udid: &str) -> (r: Option<&ConnectedDevice>)
        ensures
            match r {
                Some(d) => exists|i: int|
                    0 <= i < self.spec_devices().len() && self.spec_devices()[i] == *d && d.udid@
                        == udid@ && forall|j: int|
                        0 <= j < i ==> #[trigger] self.spec_devices()[j].udid@ != udid@,
                None => forall|j: int|
                    0 <= j < self.spec_devices().len() ==> #[trigger] self.spec_devices()[j].udid@
                        != udid@,
            },
    {
        let mut i: usize = 0;
        while i < self.devices.len()
            invariant
                i <= self.devices@.len(),
                forall|j: int| 0 <= j < i ==> #[trigger] self.devices@[j].udid@ != udid@,
            decreases self.devices@.len() - i,
        {
            if str_eq(self.devices[i].udid.as_str(), udid) {
                assert(self.spec_devices()[i as int] == self.devices@[i as int]);
                return Some(&self.devices[i]);
            }
            i = i + 1;
        }
        None
    }
}

} // verus!
