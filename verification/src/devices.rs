//! The devices that a scan of the network turns up.

use vstd::hash_set::StringHashSet;
use vstd::prelude::*;

use crate::text::{hex_value, law_mac_text_reads_back, mac_text, mac_to_string};

verus! {

/// What the controller reads of a device on the network. The addresses stand in the order in
/// which the network information lists them.
pub struct Device {
    pub wifi_mac: Option<[u8; 6]>,
    pub addresses: Vec<String>,
}

/// A device that can be given a topic, as contracts see it.
pub struct Found {
    pub index: usize,
    pub mac: Seq<char>,
    pub ip: Seq<char>,
}

impl Device {
    /// The device as found at a position of a scan, if it has a Wi-Fi address and some network
    /// address.
    pub open spec fn found(self, index: usize) -> Option<Found> {
        match self.wifi_mac {
            Some(mac) if self.addresses@.len() > 0 => Some(
                Found { index, mac: mac_text(mac@), ip: self.addresses@[0]@ },
            ),
            _ => None,
        }
    }
}

/// A device that can be given a topic: its position in the scan, its Wi-Fi address in text form
/// and its first network address.
pub struct NewDevice {
    pub index: usize,
    pub mac: String,
    pub ip: String,
}

impl View for NewDevice {
    type V = Found;

    open spec fn view(&self) -> Found {
        Found { index: self.index, mac: self.mac@, ip: self.ip@ }
    }
}

impl NewDevice {
    /// Reads a device at a position of a scan. A device without a Wi-Fi address or without any
    /// network address gives nothing.
    pub fn from_device(index: usize, device: &Device) -> (found: Option<NewDevice>)
        ensures
            found is Some <==> device.found(index) is Some,
            found matches Some(found) ==> Some(found@) == device.found(index),
    {
        let mac = match &device.wifi_mac {
            Some(mac) => mac_to_string(mac),
            None => {
                return None;
            },
        };
        if device.addresses.len() == 0 {
            return None;
        }
        Some(NewDevice { index, mac, ip: device.addresses[0].clone() })
    }
}

/// The models of a list of devices.
pub open spec fn founds(devices: Seq<NewDevice>) -> Seq<Found> {
    devices.map_values(|device: NewDevice| device@)
}

/// The usable devices of a scan whose address is not known, in the order of the scan.
pub open spec fn new_among(devices: Seq<Device>, known: Set<Seq<char>>) -> Seq<Found>
    decreases devices.len(),
{
    if devices.len() == 0 {
        Seq::empty()
    } else {
        let before = new_among(devices.drop_last(), known);
        match devices.last().found((devices.len() - 1) as usize) {
            Some(found) if !known.contains(found.mac) => before.push(found),
            _ => before,
        }
    }
}

/// Picks the usable devices of a scan whose address is not known.
pub fn find_new_devices(devices: &Vec<Device>, existing_macs: &StringHashSet) -> (new_devices: Vec<
    NewDevice,
>)
    ensures
        founds(new_devices@) == new_among(devices@, existing_macs@),
{
    let mut new_devices: Vec<NewDevice> = Vec::new();
    let mut index: usize = 0;
    while index < devices.len()
        invariant
            index <= devices.len(),
            founds(new_devices@) == new_among(devices@.take(index as int), existing_macs@),
        decreases devices.len() - index,
    {
        proof {
            let next = devices@.take(index + 1);
            assert(next.drop_last() == devices@.take(index as int));
            assert(next.last() == devices@[index as int]);
        }
        if let Some(found) = NewDevice::from_device(index, &devices[index]) {
            if !existing_macs.contains(found.mac.as_str()) {
                let ghost before = new_devices@;
                new_devices.push(found);
                assert(founds(new_devices@) == founds(before).push(found@));
            }
        }
        index = index + 1;
    }
    assert(devices@.take(devices@.len() as int) == devices@);
    new_devices
}

/// A device is picked if and only if it is usable and its address is not known.
pub proof fn law_new_devices_are_the_unknown_ones(
    devices: Seq<Device>,
    known: Set<Seq<char>>,
    device: Found,
)
    requires
        devices.len() <= usize::MAX,
    ensures
        new_among(devices, known).contains(device) <==> {
            &&& device.index < devices.len()
            &&& devices[device.index as int].found(device.index) == Some(device)
            &&& !known.contains(device.mac)
        },
    decreases devices.len(),
{
    let new_devices = new_among(devices, known);
    if devices.len() > 0 {
        let before = new_among(devices.drop_last(), known);
        let last = (devices.len() - 1) as usize;
        law_new_devices_are_the_unknown_ones(devices.drop_last(), known, device);
        match devices.last().found(last) {
            Some(found) if !known.contains(found.mac) => {
                assert(new_devices[before.len() as int] == found);
                assert(forall|j: int| 0 <= j < before.len() ==> new_devices[j] == before[j]);
                if before.contains(device) {
                    let j = choose|j: int| 0 <= j < before.len() && before[j] == device;
                    assert(new_devices[j] == device);
                }
            },
            _ => {},
        }
    }
}

/// The devices picked stand in the order of the scan, and no position occurs twice.
pub proof fn law_new_devices_keep_order(devices: Seq<Device>, known: Set<Seq<char>>)
    requires
        devices.len() <= usize::MAX,
    ensures
        new_among(devices, known).len() <= devices.len(),
        forall|i: int, j: int|
            0 <= i < j < new_among(devices, known).len() ==> (#[trigger] new_among(
                devices,
                known,
            )[i]).index < (#[trigger] new_among(devices, known)[j]).index,
        forall|i: int|
            0 <= i < new_among(devices, known).len() ==> (#[trigger] new_among(
                devices,
                known,
            )[i]).index < devices.len(),
    decreases devices.len(),
{
    if devices.len() > 0 {
        law_new_devices_keep_order(devices.drop_last(), known);
    }
}

/// A device can be used if and only if it has a Wi-Fi address and some network address. It is then
/// found at its position, with a text that reads back as the Wi-Fi address, and with the first of
/// its network addresses.
pub proof fn law_device_is_found_as_it_stands(device: Device, index: usize, i: int)
    requires
        0 <= i < 6,
    ensures
        device.found(index) is Some <==> device.wifi_mac is Some && device.addresses@.len() > 0,
        device.found(index) matches Some(found) ==> {
            &&& found.index == index
            &&& found.ip == device.addresses@[0]@
            &&& found.mac.len() == 17
            &&& device.wifi_mac matches Some(mac)
            &&& hex_value(found.mac[3 * i]) matches Some(high)
            &&& hex_value(found.mac[3 * i + 1]) matches Some(low)
            &&& 16 * high + low == mac@[i]
            &&& i < 5 ==> found.mac[3 * i + 2] == ':'
        },
{
    if let Some(mac) = device.wifi_mac {
        law_mac_text_reads_back(mac@, i);
    }
}

/// A list of devices is read as it stands, each in its place.
pub proof fn law_devices_keep_their_places(devices: Seq<NewDevice>, i: int)
    ensures
        founds(devices).len() == devices.len(),
        0 <= i < devices.len() ==> {
            &&& founds(devices)[i].index == devices[i].index
            &&& founds(devices)[i].mac == devices[i].mac@
            &&& founds(devices)[i].ip == devices[i].ip@
        },
{
}

} // verus!
