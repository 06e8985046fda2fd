//! Device driver registry: matching enumerated USB devices against the
//! static filters of the known hardware models.
//!
//! Discovery is an explicit function over the enumerated device identities
//! and a filter table, so it can be exercised without hardware by handing it
//! any device list. Opening a matched device and running its initialization
//! handshake is the unverified host layer's job.

use vstd::prelude::*;

verus! {

/// Identity criterion for a supported hardware model.
#[derive(Clone, Copy, PartialEq, Eq, Structural, Debug)]
pub struct DeviceFilter {
    pub vendor: u16,
    pub product: u16,
}

/// The identity of one USB device seen during enumeration.
#[derive(Clone, Copy, PartialEq, Eq, Structural, Debug)]
pub struct DeviceDescriptor {
    pub vendor: u16,
    pub product: u16,
}

/// An opened, initialized actuator: the single capability the control loop
/// needs, setting a fixed duty on the device. The host layer implements it
/// over the real transport.
pub trait KrakenUsbDevice {
    fn set_fixed_speed(&mut self, duty: u8);
}

/// A filter accepts exactly the devices carrying its vendor and product ids.
pub open spec fn filter_matches(f: DeviceFilter, d: DeviceDescriptor) -> bool {
    d.vendor == f.vendor && d.product == f.product
}

/// Some filter in the table accepts the device.
pub open spec fn matches_any(d: DeviceDescriptor, filters: Seq<DeviceFilter>) -> bool {
    exists|k: int| 0 <= k < filters.len() && filter_matches(#[trigger] filters[k], d)
}

impl DeviceFilter {
    /// Whether an enumerated device's identity matches this filter.
    pub fn matches(&self, desc: &DeviceDescriptor) -> (r: bool)
        ensures
            r == filter_matches(*self, *desc),
    {
        desc.vendor == self.vendor && desc.product == self.product
    }
}

/// Scan the enumerated devices in order and return the index of the first
/// one whose identity matches any filter in the table; `None` when no device
/// matches any filter.
pub fn find_device(devices: &Vec<DeviceDescriptor>, filters: &Vec<DeviceFilter>) -> (r: Option<
    usize,
>)
    ensures
        match r {
            Some(i) => {
                &&& i < devices@.len()
                &&& matches_any(devices@[i as int], filters@)
                &&& forall|j: int| 0 <= j < i ==> !matches_any(#[trigger] devices@[j], filters@)
            },
            None => forall|j: int|
                0 <= j < devices@.len() ==> !matches_any(#[trigger] devices@[j], filters@),
        },
{
    let mut i: usize = 0;
    while i < devices.len()
        invariant
            0 <= i <= devices@.len(),
            forall|j: int| 0 <= j < i ==> !matches_any(#[trigger] devices@[j], filters@),
        decreases devices@.len() - i,
    {
        let mut k: usize = 0;
        while k < filters.len()
            invariant
                0 <= i < devices@.len(),
                0 <= k <= filters@.len(),
                forall|j: int| 0 <= j < i ==> !matches_any(#[trigger] devices@[j], filters@),
                forall|m: int|
                    0 <= m < k ==> !filter_matches(#[trigger] filters@[m], devices@[i as int]),
            decreases filters@.len() - k,
        {
            if filters[k].matches(&devices[i]) {
                proof {
                    assert(filter_matches(filters@[k as int], devices@[i as int]));
                }
                return Some(i);
            }
            k = k + 1;
        }
        i = i + 1;
    }
    None
}

} // verus!
