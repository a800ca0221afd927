//! What the controller remembers of devices and their topics.

use std::collections::HashMap;
use vstd::hash_map::StringHashMap;
use vstd::hash_set::StringHashSet;
use vstd::prelude::*;
use vstd::std_specs::hash::*;
use vstd::std_specs::iter::IteratorSpec;

verus! {

/// Which device has which address, and which address has which topic.
pub struct Mappings {
    pub id_mac: Map<usize, Seq<char>>,
    pub mac_uuid: Map<Seq<char>, Seq<char>>,
}

impl Mappings {
    /// No device is known.
    pub open spec fn empty() -> Mappings {
        Mappings { id_mac: Map::empty(), mac_uuid: Map::empty() }
    }

    /// A device has an address, and the address a topic.
    pub open spec fn record(self, id: usize, mac: Seq<char>, uuid: Seq<char>) -> Mappings {
        Mappings {
            id_mac: self.id_mac.insert(id, mac),
            mac_uuid: self.mac_uuid.insert(mac, uuid),
        }
    }

    /// The address of a device.
    pub open spec fn mac(self, id: usize) -> Option<Seq<char>> {
        if self.id_mac.contains_key(id) {
            Some(self.id_mac[id])
        } else {
            None
        }
    }

    /// The topic of an address.
    pub open spec fn uuid(self, mac: Seq<char>) -> Option<Seq<char>> {
        if self.mac_uuid.contains_key(mac) {
            Some(self.mac_uuid[mac])
        } else {
            None
        }
    }

    /// The topic of a device.
    pub open spec fn topic(self, id: usize) -> Option<Seq<char>> {
        match self.mac(id) {
            Some(mac) => self.uuid(mac),
            None => None,
        }
    }
}

/// Every device has the topic of its address.
pub open spec fn every_device_has_a_topic(mappings: Mappings) -> bool {
    forall|id: usize| #[trigger]
        mappings.id_mac.contains_key(id) ==> mappings.mac_uuid.contains_key(mappings.id_mac[id])
}

/// An optional text.
pub open spec fn text_of(text: Option<String>) -> Option<Seq<char>> {
    match text {
        Some(text) => Some(text@),
        None => None,
    }
}

/// The devices that have been met, with their addresses and topics.
pub struct SharedState {
    id_mac_map: HashMap<usize, String>,
    mac_uuid_map: StringHashMap<String>,
}

impl View for SharedState {
    type V = Mappings;

    closed spec fn view(&self) -> Mappings {
        Mappings {
            id_mac: self.id_mac_map@.map_values(|mac: String| mac@),
            mac_uuid: self.mac_uuid_map@.map_values(|uuid: String| uuid@),
        }
    }
}

impl SharedState {
    /// Starts without any device.
    pub fn new() -> (state: SharedState)
        ensures
            state@ == Mappings::empty(),
    {
        broadcast use group_hash_axioms;

        let state = SharedState { id_mac_map: HashMap::new(), mac_uuid_map: StringHashMap::new() };
        assert(state@.id_mac =~= Mappings::empty().id_mac);
        assert(state@.mac_uuid =~= Mappings::empty().mac_uuid);
        state
    }

    /// Records the address of a device and the topic of that address.
    pub fn update_mappings(&mut self, id: usize, mac: String, uuid: String)
        ensures
            final(self)@ == old(self)@.record(id, mac@, uuid@),
    {
        broadcast use group_hash_axioms;

        let key = mac.clone();
        self.id_mac_map.insert(id, mac);
        self.mac_uuid_map.insert(key, uuid);
        assert(self@.id_mac =~= old(self)@.record(id, mac@, uuid@).id_mac);
        assert(self@.mac_uuid =~= old(self)@.record(id, mac@, uuid@).mac_uuid);
    }

    /// The address of a device.
    pub fn get_mac(&self, device_id: usize) -> (mac: Option<String>)
        ensures
            text_of(mac) == self@.mac(device_id),
    {
        broadcast use group_hash_axioms;

        match self.id_mac_map.get(&device_id) {
            Some(mac) => Some(mac.clone()),
            None => None,
        }
    }

    /// The topic of an address.
    pub fn get_topic_uuid(&self, mac: &str) -> (uuid: Option<String>)
        ensures
            text_of(uuid) == self@.uuid(mac@),
    {
        match self.mac_uuid_map.get(mac) {
            Some(uuid) => Some(uuid.clone()),
            None => None,
        }
    }

    /// The topic of a device.
    pub fn get_topic_uuid_for_device(&self, device_id: usize) -> (uuid: Option<String>)
        ensures
            text_of(uuid) == self@.topic(device_id),
    {
        match self.get_mac(device_id) {
            Some(mac) => self.get_topic_uuid(mac.as_str()),
            None => None,
        }
    }

    /// The addresses of all devices.
    pub fn existing_macs(&self) -> (macs: StringHashSet)
        ensures
            macs@ == self@.id_mac.values(),
    {
        broadcast use group_hash_axioms;

        let ghost seen = spec_values_iter(&self.id_mac_map).remaining().unref();
        let mut macs = StringHashSet::new();
        for mac in it: self.id_mac_map.values()
            invariant
                it.seq().unref() == seen,
                forall|text: Seq<char>| #[trigger]
                    macs@.contains(text) <==> exists|j: int|
                        0 <= j < it.index() && text == (#[trigger] seen[j])@,
        {
            assert(*mac == seen[it.index()]);
            macs.insert(mac.clone());
        }
        assert(macs@ =~= self@.id_mac.values()) by {
            assert forall|text: Seq<char>|
                macs@.contains(text) implies self@.id_mac.values().contains(text) by {
                let j = choose|j: int| 0 <= j < seen.len() && text == (#[trigger] seen[j])@;
                assert(seen.to_set().contains(seen[j]));
                let id = choose|id: usize|
                    self.id_mac_map@.contains_key(id) && self.id_mac_map@[id] == seen[j];
                assert(self@.id_mac.contains_key(id) && self@.id_mac[id] == text);
            }
            assert forall|text: Seq<char>|
                self@.id_mac.values().contains(text) implies macs@.contains(text) by {
                let id = choose|id: usize|
                    self@.id_mac.contains_key(id) && self@.id_mac[id] == text;
                assert(self.id_mac_map@.values().contains(self.id_mac_map@[id]));
                assert(seen.to_set().contains(self.id_mac_map@[id]));
            }
        }
        macs
    }
}

/// What has been recorded last of a device is what is found for it.
pub proof fn law_recorded_device_is_found(
    mappings: Mappings,
    id: usize,
    mac: Seq<char>,
    uuid: Seq<char>,
)
    ensures
        mappings.record(id, mac, uuid).mac(id) == Some(mac),
        mappings.record(id, mac, uuid).uuid(mac) == Some(uuid),
        mappings.record(id, mac, uuid).topic(id) == Some(uuid),
        mappings.record(id, mac, uuid).id_mac.values().contains(mac),
{
    let after = mappings.record(id, mac, uuid);
    assert(after.id_mac.contains_key(id) && after.id_mac[id] == mac);
}

/// Recording a device leaves the addresses of other devices and the topics of other addresses
/// as they were. A device that shares the recorded address moves to its topic.
pub proof fn law_record_touches_nothing_else(
    mappings: Mappings,
    id: usize,
    mac: Seq<char>,
    uuid: Seq<char>,
    other_id: usize,
    other_mac: Seq<char>,
)
    ensures
        other_id != id ==> mappings.record(id, mac, uuid).mac(other_id) == mappings.mac(other_id),
        other_mac != mac ==> mappings.record(id, mac, uuid).uuid(other_mac) == mappings.uuid(
            other_mac,
        ),
        other_id != id && mappings.mac(other_id) != Some(mac) ==> mappings.record(
            id,
            mac,
            uuid,
        ).topic(other_id) == mappings.topic(other_id),
        other_id != id && mappings.mac(other_id) == Some(mac) ==> mappings.record(
            id,
            mac,
            uuid,
        ).topic(other_id) == Some(uuid),
{
}

/// Of two records of one device and address, the later one stands alone.
pub proof fn law_later_record_replaces(
    mappings: Mappings,
    id: usize,
    mac: Seq<char>,
    first: Seq<char>,
    second: Seq<char>,
)
    ensures
        mappings.record(id, mac, first).record(id, mac, second) == mappings.record(id, mac, second),
{
    let twice = mappings.record(id, mac, first).record(id, mac, second);
    let once = mappings.record(id, mac, second);
    assert(twice.id_mac =~= once.id_mac);
    assert(twice.mac_uuid =~= once.mac_uuid);
}

/// A device whose address is known has a topic: at the start, and after each record. Then a
/// device lacks a topic only if its address is unknown.
pub proof fn law_every_device_has_a_topic(
    mappings: Mappings,
    id: usize,
    mac: Seq<char>,
    uuid: Seq<char>,
)
    ensures
        every_device_has_a_topic(Mappings::empty()),
        every_device_has_a_topic(mappings) ==> every_device_has_a_topic(
            mappings.record(id, mac, uuid),
        ),
        every_device_has_a_topic(mappings) ==> (mappings.topic(id) is None <==> mappings.mac(
            id,
        ) is None),
{
}

/// At the start no device has an address and no address a topic.
pub proof fn law_nothing_is_known_at_the_start(id: usize, mac: Seq<char>)
    ensures
        Mappings::empty().mac(id) is None,
        Mappings::empty().uuid(mac) is None,
        Mappings::empty().topic(id) is None,
        !Mappings::empty().id_mac.values().contains(mac),
{
}

/// An address is among those of all devices if and only if some device has it.
pub proof fn law_known_addresses_are_those_of_devices(mappings: Mappings, mac: Seq<char>)
    ensures
        mappings.id_mac.values().contains(mac) <==> exists|id: usize| #[trigger]
            mappings.mac(id) == Some(mac),
{
    if mappings.id_mac.values().contains(mac) {
        let id = choose|id: usize| mappings.id_mac.contains_key(id) && mappings.id_mac[id] == mac;
        assert(mappings.mac(id) == Some(mac));
    }
    if exists|id: usize| #[trigger] mappings.mac(id) == Some(mac) {
        let id = choose|id: usize| #[trigger] mappings.mac(id) == Some(mac);
        assert(mappings.id_mac.contains_key(id) && mappings.id_mac[id] == mac);
    }
}

/// The topic of a device is that of its address, and it has none without one of the two.
pub proof fn law_topic_is_that_of_the_address(mappings: Mappings, id: usize, topic: Seq<char>)
    ensures
        mappings.topic(id) == Some(topic) <==> exists|mac: Seq<char>|
            mappings.mac(id) == Some(mac) && #[trigger] mappings.uuid(mac) == Some(topic),
        mappings.mac(id) is Some <==> mappings.id_mac.contains_key(id),
        mappings.mac(id) matches Some(mac) ==> mac == mappings.id_mac[id],
        forall|mac: Seq<char>| #[trigger]
            mappings.uuid(mac) == (if mappings.mac_uuid.contains_key(mac) {
                Some(mappings.mac_uuid[mac])
            } else {
                None
            }),
{
}

/// An optional text is read as it stands.
pub proof fn law_text_is_read_as_it_stands(text: String)
    ensures
        text_of(Some(text)) == Some(text@),
        text_of(None::<String>) is None,
{
}

} // verus!
