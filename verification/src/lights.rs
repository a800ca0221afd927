//! The topics of smart lights: how they are created, found and kept up to date.

use crate::events::{
    law_replay_changes_nothing, state_after, DeviceState, EventPayload, Events, Reading,
};
use crate::json::{boolean, insert, json_tree, natural, no_members, object, string, Json};
use crate::text::{
    decimal, decimal_string, law_decimal_reads_back, law_decimal_tells_numbers_apart, number_read,
};
use crate::topics::{topic_address, topic_url};
use vstd::prelude::*;
use vstd::string::*;

verus! {

/// What the topic of a smart light says of it.
#[derive(Clone)]
pub struct SmartLightValue {
    pub name: String,
    pub mode: String,
    pub status: bool,
    pub temperature: Reading,
    pub mac_address: String,
    pub ip_address: String,
    pub area_name: String,
    pub privacy: Option<bool>,
    pub privacy_until: Option<String>,
}

/// The topic of a smart light.
pub struct SmartLight {
    pub topic_uuid: String,
    pub topic_name: String,
    pub value: SmartLightValue,
}

/// What a topic says of a smart light, apart from how it is stored.
pub struct Light {
    pub name: Seq<char>,
    pub mode: Seq<char>,
    pub status: bool,
    pub temperature: Reading,
    pub mac_address: Seq<char>,
    pub ip_address: Seq<char>,
    pub area_name: Seq<char>,
    pub privacy: Option<bool>,
    pub privacy_until: Option<Seq<char>>,
}

/// A topic of a smart light, apart from how it is stored.
pub struct LightTopic {
    pub topic_uuid: Seq<char>,
    pub topic_name: Seq<char>,
    pub value: Light,
}

impl View for SmartLightValue {
    type V = Light;

    open spec fn view(&self) -> Light {
        Light {
            name: self.name@,
            mode: self.mode@,
            status: self.status,
            temperature: self.temperature,
            mac_address: self.mac_address@,
            ip_address: self.ip_address@,
            area_name: self.area_name@,
            privacy: self.privacy,
            privacy_until: match self.privacy_until {
                Some(until) => Some(until@),
                None => None,
            },
        }
    }
}

impl View for SmartLight {
    type V = LightTopic;

    open spec fn view(&self) -> LightTopic {
        LightTopic {
            topic_uuid: self.topic_uuid@,
            topic_name: self.topic_name@,
            value: self.value@,
        }
    }
}

impl Light {
    /// The part of a light that its events speak of.
    pub open spec fn state(self) -> DeviceState {
        DeviceState { status: self.status, temperature: self.temperature, mode: self.mode }
    }

    /// The light after a message of the device with the given address.
    pub open spec fn after(self, mac: Seq<char>, events: Events) -> Light {
        let state = state_after(self.state(), events);
        Light {
            status: state.status,
            temperature: state.temperature,
            mode: state.mode,
            mac_address: mac,
            ..self
        }
    }
}

/// Finds the status, the temperature and the mode of a light after a message of its device.
pub fn extract_device_state(
    current: &SmartLightValue,
    event: &EventPayload,
) -> (state: (bool, Reading, String))
    ensures
        (DeviceState { status: state.0, temperature: state.1, mode: state.2@ }) == state_after(
            current@.state(),
            event.events,
        ),
{
    let status = event.events.settle_status(current.status);
    let mode = event.events.settle_mode(&current.mode);
    let temperature = event.events.settle_temperature(current.temperature);
    (status, temperature, mode)
}

/// What is written to the topic of a light after a message of its device.
pub struct LightUpdate {
    pub url: String,
    pub value: SmartLightValue,
}

/// Decides what is written to the topic of a light, and where, after a message of its device.
pub fn update_smart_light_topic(
    topic: &SmartLight,
    topic_uuid: &str,
    mac: &str,
    event: &EventPayload,
) -> (update: LightUpdate)
    ensures
        update.url@ == topic_address(topic_uuid@),
        update.value@ == topic@.value.after(mac@, event.events),
{
    let (status, temperature, mode) = extract_device_state(&topic.value, event);
    let privacy_until = match &topic.value.privacy_until {
        Some(until) => Some(until.clone()),
        None => None,
    };
    LightUpdate {
        url: topic_url(topic_uuid),
        value: SmartLightValue {
            name: topic.value.name.clone(),
            mode,
            status,
            temperature,
            mac_address: mac.to_string(),
            ip_address: topic.value.ip_address.clone(),
            area_name: topic.value.area_name.clone(),
            privacy: topic.value.privacy,
            privacy_until,
        },
    }
}

/// The members of the JSON object that stands for a light, where its temperature is written as
/// the given value. What is not known of its privacy is left out.
pub open spec fn light_members(light: Light, temperature: Json) -> Map<Seq<char>, Json> {
    let members = Map::<Seq<char>, Json>::empty().insert("name"@, Json::Text(light.name)).insert(
        "mode"@,
        Json::Text(light.mode),
    ).insert("status"@, Json::Bool(light.status)).insert("temperature"@, temperature).insert(
        "mac_address"@,
        Json::Text(light.mac_address),
    ).insert("ip_address"@, Json::Text(light.ip_address)).insert(
        "area_name"@,
        Json::Text(light.area_name),
    );
    let members = match light.privacy {
        Some(privacy) => members.insert("privacy"@, Json::Bool(privacy)),
        None => members,
    };
    match light.privacy_until {
        Some(until) => members.insert("privacy_until"@, Json::Text(until)),
        None => members,
    }
}

/// Writes a light as a JSON object, with its temperature written as the given value.
pub fn light_payload(
    value: &SmartLightValue,
    temperature: serde_json::Value,
) -> (payload: serde_json::Value)
    ensures
        json_tree(payload) == Json::Object(light_members(value@, json_tree(temperature))),
{
    let mut payload = no_members();
    insert(&mut payload, "name".to_string(), string(value.name.clone()));
    insert(&mut payload, "mode".to_string(), string(value.mode.clone()));
    insert(&mut payload, "status".to_string(), boolean(value.status));
    insert(&mut payload, "temperature".to_string(), temperature);
    insert(&mut payload, "mac_address".to_string(), string(value.mac_address.clone()));
    insert(&mut payload, "ip_address".to_string(), string(value.ip_address.clone()));
    insert(&mut payload, "area_name".to_string(), string(value.area_name.clone()));
    if let Some(privacy) = value.privacy {
        insert(&mut payload, "privacy".to_string(), boolean(privacy));
    }
    if let Some(until) = &value.privacy_until {
        insert(&mut payload, "privacy_until".to_string(), string(until.clone()));
    }
    object(payload)
}

/// A write to the distributed hash table.
pub struct TopicPost {
    pub url: String,
    pub payload: serde_json::Value,
}

impl LightUpdate {
    /// What is sent, with the temperature written as the given value.
    pub fn post(self, temperature: serde_json::Value) -> (post: TopicPost)
        ensures
            post.url@ == self.url@,
            json_tree(post.payload) == Json::Object(
                light_members(self.value@, json_tree(temperature)),
            ),
    {
        TopicPost { payload: light_payload(&self.value, temperature), url: self.url }
    }
}

/// The name of the light of the device at an index: lights are counted from 1.
pub open spec fn light_name(index: nat) -> Seq<char> {
    "Luce Intelligente "@ + decimal(index + 1)
}

/// The members of the JSON object that stands for a light that has just been found.
pub open spec fn new_light_members(
    index: nat,
    mac: Seq<char>,
    ip: Seq<char>,
    area_name: Seq<char>,
) -> Map<Seq<char>, Json> {
    Map::<Seq<char>, Json>::empty().insert("name"@, Json::Text(light_name(index))).insert(
        "mode"@,
        Json::Text("manual"@),
    ).insert("status"@, Json::Bool(false)).insert("temperature"@, Json::Natural(18)).insert(
        "mac_address"@,
        Json::Text(mac),
    ).insert("ip_address"@, Json::Text(ip)).insert("area_name"@, Json::Text(area_name))
}

/// Decides what is written to a new topic, and where, for a light that has just been found and is
/// placed in the given room.
pub fn create_smart_light_topic(
    index: usize,
    topic_uuid: &str,
    mac: &str,
    ip: String,
    area_name: String,
) -> (post: TopicPost)
    requires
        index < usize::MAX,
    ensures
        post.url@ == topic_address(topic_uuid@),
        json_tree(post.payload) == Json::Object(
            new_light_members(index as nat, mac@, ip@, area_name@),
        ),
{
    let name = "Luce Intelligente ".to_string().concat(decimal_string(index + 1).as_str());
    let mut payload = no_members();
    insert(&mut payload, "name".to_string(), string(name));
    insert(&mut payload, "mode".to_string(), string("manual".to_string()));
    insert(&mut payload, "status".to_string(), boolean(false));
    insert(&mut payload, "temperature".to_string(), natural(18));
    insert(&mut payload, "mac_address".to_string(), string(mac.to_string()));
    insert(&mut payload, "ip_address".to_string(), string(ip));
    insert(&mut payload, "area_name".to_string(), string(area_name));
    TopicPost { url: topic_url(topic_uuid), payload: object(payload) }
}

/// The first listed light with an address, if any has it.
pub open spec fn light_of_mac(lights: Seq<LightTopic>, mac: Seq<char>) -> Option<LightTopic>
    decreases lights.len(),
{
    if lights.len() == 0 {
        None
    } else if lights[0].value.mac_address == mac {
        Some(lights[0])
    } else {
        light_of_mac(lights.drop_first(), mac)
    }
}

/// The topic that the first listed light with an address has, if any has it.
pub open spec fn topic_of_mac(lights: Seq<LightTopic>, mac: Seq<char>) -> Option<Seq<char>> {
    match light_of_mac(lights, mac) {
        Some(light) => Some(light.topic_uuid),
        None => None,
    }
}

/// What a list of light topics says.
pub open spec fn lights_read(lights: Seq<SmartLight>) -> Seq<LightTopic> {
    lights.map_values(|light: SmartLight| light@)
}

/// Finds the first listed light with an address.
pub fn find_light<'a>(lights: &'a Vec<SmartLight>, mac: &String) -> (found: Option<&'a SmartLight>)
    ensures
        match found {
            Some(light) => light_of_mac(lights_read(lights@), mac@) == Some(light@),
            None => light_of_mac(lights_read(lights@), mac@) is None,
        },
        match found {
            Some(light) => exists|i: int| #[trigger] is_first_with_mac(lights@, i, mac@) && *light
                == lights@[i],
            None => forall|i: int|
                0 <= i < lights@.len() ==> (#[trigger] lights@[i]).value.mac_address@ != mac@,
        },
{
    let ghost all = lights_read(lights@);
    assert(all.skip(0) =~= all);
    let mut i: usize = 0;
    while i < lights.len()
        invariant
            i <= lights.len(),
            all == lights_read(lights@),
            light_of_mac(all, mac@) == light_of_mac(all.skip(i as int), mac@),
            forall|j: int| 0 <= j < i ==> (#[trigger] lights@[j]).value.mac_address@ != mac@,
        decreases lights.len() - i,
    {
        assert(all.skip(i as int)[0] == lights[i as int]@);
        assert(all.skip(i as int).drop_first() =~= all.skip(i + 1));
        if lights[i].value.mac_address == *mac {
            assert(is_first_with_mac(lights@, i as int, mac@));
            return Some(&lights[i]);
        }
        i += 1;
    }
    None
}

/// Finds the topic that a light already has, by its address.
pub fn find_topic(lights: &Vec<SmartLight>, mac: &String) -> (found: Option<String>)
    ensures
        match found {
            Some(topic_uuid) => topic_of_mac(lights_read(lights@), mac@) == Some(topic_uuid@),
            None => topic_of_mac(lights_read(lights@), mac@) is None,
        },
        match found {
            Some(topic_uuid) => exists|i: int| #[trigger] is_first_with_mac(lights@, i, mac@)
                && topic_uuid@ == lights@[i].topic_uuid@,
            None => forall|i: int|
                0 <= i < lights@.len() ==> (#[trigger] lights@[i]).value.mac_address@ != mac@,
        },
{
    match find_light(lights, mac) {
        Some(light) => Some(light.topic_uuid.clone()),
        None => None,
    }
}

/// A message of a device leaves alone what its events do not speak of, and records its address.
pub proof fn law_update_keeps_the_rest(light: Light, mac: Seq<char>, events: Events)
    ensures
        light.after(mac, events).state() == state_after(light.state(), events),
        light.after(mac, events).mac_address == mac,
        light.after(mac, events).name == light.name,
        light.after(mac, events).ip_address == light.ip_address,
        light.after(mac, events).area_name == light.area_name,
        light.after(mac, events).privacy == light.privacy,
        light.after(mac, events).privacy_until == light.privacy_until,
{
}

/// A message that arrives twice leaves the light as it was after the first time.
pub proof fn law_update_twice_is_update_once(light: Light, mac: Seq<char>, events: Events)
    ensures
        light.after(mac, events).after(mac, events) == light.after(mac, events),
{
    law_replay_changes_nothing(light.state(), events);
}

/// The keys of a light differ from each other, by their lengths or their first letters.
proof fn lemma_keys_differ()
    ensures
        "name"@.len() == 4 && "name"@[0] == 'n',
        "mode"@.len() == 4 && "mode"@[0] == 'm',
        "status"@.len() == 6,
        "temperature"@.len() == 11 && "temperature"@[0] == 't',
        "mac_address"@.len() == 11 && "mac_address"@[0] == 'm',
        "ip_address"@.len() == 10,
        "area_name"@.len() == 9,
        "privacy"@.len() == 7,
        "privacy_until"@.len() == 13,
{
    reveal_strlit("name");
    reveal_strlit("mode");
    reveal_strlit("status");
    reveal_strlit("temperature");
    reveal_strlit("mac_address");
    reveal_strlit("ip_address");
    reveal_strlit("area_name");
    reveal_strlit("privacy");
    reveal_strlit("privacy_until");
}

/// The keys under which every light is described.
pub open spec fn light_keys() -> Set<Seq<char>> {
    set![
        "name"@,
        "mode"@,
        "status"@,
        "temperature"@,
        "mac_address"@,
        "ip_address"@,
        "area_name"@,
    ]
}

/// A light is written with each of its values under a key of its own, the two on privacy only
/// where they are known, and with nothing else.
pub proof fn law_light_members(light: Light, temperature: Json)
    ensures
        ({
            let members = light_members(light, temperature);
            &&& members["name"@] == Json::Text(light.name)
            &&& members["mode"@] == Json::Text(light.mode)
            &&& members["status"@] == Json::Bool(light.status)
            &&& members["temperature"@] == temperature
            &&& members["mac_address"@] == Json::Text(light.mac_address)
            &&& members["ip_address"@] == Json::Text(light.ip_address)
            &&& members["area_name"@] == Json::Text(light.area_name)
            &&& light.privacy matches Some(privacy) ==> members["privacy"@] == Json::Bool(privacy)
            &&& light.privacy_until matches Some(until) ==> members["privacy_until"@] == Json::Text(
                until,
            )
            &&& forall|key: Seq<char>| #[trigger]
                members.contains_key(key) <==> light_keys().contains(key) || (key == "privacy"@
                    && light.privacy is Some) || (key == "privacy_until"@
                    && light.privacy_until is Some)
        }),
{
    lemma_keys_differ();
}

/// A light that has just been found is written under the keys of every light: off, in manual mode
/// and at 18 degrees, with nothing on privacy.
pub proof fn law_new_light_members(
    index: nat,
    mac: Seq<char>,
    ip: Seq<char>,
    area_name: Seq<char>,
)
    ensures
        ({
            let members = new_light_members(index, mac, ip, area_name);
            &&& members["name"@] == Json::Text(light_name(index))
            &&& members["mode"@] == Json::Text("manual"@)
            &&& members["status"@] == Json::Bool(false)
            &&& members["temperature"@] == Json::Natural(18)
            &&& members["mac_address"@] == Json::Text(mac)
            &&& members["ip_address"@] == Json::Text(ip)
            &&& members["area_name"@] == Json::Text(area_name)
            &&& members.dom() == light_keys()
        }),
{
    lemma_keys_differ();
    assert(new_light_members(index, mac, ip, area_name).dom() =~= light_keys());
}

/// Nothing is lost when a light is written: what is written tells lights apart in all but the
/// temperature, which is written as the given value.
pub proof fn law_payload_tells_lights_apart(a: Light, b: Light, t: Json, u: Json)
    requires
        light_members(a, t) == light_members(b, u),
    ensures
        t == u,
        a == (Light { temperature: a.temperature, ..b }),
{
    law_light_members(a, t);
    law_light_members(b, u);
    lemma_keys_differ();
    let members = light_members(a, t);
    assert(members.contains_key("privacy"@) == (a.privacy is Some));
    assert(members.contains_key("privacy_until"@) == (a.privacy_until is Some));
}

/// Devices at different places get lights with different names.
pub proof fn law_light_names_differ(a: nat, b: nat)
    requires
        light_name(a) == light_name(b),
    ensures
        a == b,
{
    let prefix = "Luce Intelligente "@;
    assert(decimal(a + 1) =~= light_name(a).skip(prefix.len() as int));
    assert(decimal(b + 1) =~= light_name(b).skip(prefix.len() as int));
    law_decimal_tells_numbers_apart(a + 1, b + 1);
}

/// The topic found for an address is that of the first listed light with the address; where none
/// is found, no listed light has it.
pub proof fn law_topic_of_mac_is_first(lights: Seq<LightTopic>, mac: Seq<char>)
    ensures
        match topic_of_mac(lights, mac) {
            Some(uuid) => exists|i: int|
                0 <= i < lights.len() && (#[trigger] lights[i]).topic_uuid == uuid
                    && lights[i].value.mac_address == mac && (forall|j: int|
                    0 <= j < i ==> (#[trigger] lights[j]).value.mac_address != mac),
            None => forall|j: int|
                0 <= j < lights.len() ==> (#[trigger] lights[j]).value.mac_address != mac,
        },
    decreases lights.len(),
{
    if lights.len() > 0 && lights[0].value.mac_address != mac {
        let rest = lights.drop_first();
        law_topic_of_mac_is_first(rest, mac);
        match topic_of_mac(rest, mac) {
            Some(uuid) => {
                let i = choose|i: int|
                    0 <= i < rest.len() && (#[trigger] rest[i]).topic_uuid == uuid
                        && rest[i].value.mac_address == mac && (forall|j: int|
                        0 <= j < i ==> (#[trigger] rest[j]).value.mac_address != mac);
                assert(lights[i + 1] == rest[i]);
                assert forall|j: int| 0 <= j < i + 1 implies (
                #[trigger] lights[j]).value.mac_address != mac by {
                    if j > 0 {
                        assert(lights[j] == rest[j - 1]);
                    }
                }
            },
            None => {
                assert forall|j: int| 0 <= j < lights.len() implies (
                #[trigger] lights[j]).value.mac_address != mac by {
                    if j > 0 {
                        assert(lights[j] == rest[j - 1]);
                    }
                }
            },
        }
    }
}

/// A light is read as it stands: each value of the topic under its own name.
pub proof fn law_light_is_read_as_it_stands(light: SmartLight)
    ensures
        light@.topic_uuid == light.topic_uuid@,
        light@.topic_name == light.topic_name@,
        light@.value.name == light.value.name@,
        light@.value.mode == light.value.mode@,
        light@.value.status == light.value.status,
        light@.value.temperature == light.value.temperature,
        light@.value.mac_address == light.value.mac_address@,
        light@.value.ip_address == light.value.ip_address@,
        light@.value.area_name == light.value.area_name@,
        light@.value.privacy == light.value.privacy,
        light.value.privacy_until is None <==> light@.value.privacy_until is None,
        light.value.privacy_until matches Some(until) ==> light@.value.privacy_until == Some(until@),
        light@.value.state().status == light.value.status,
        light@.value.state().temperature == light.value.temperature,
        light@.value.state().mode == light.value.mode@,
{
}

/// The light at a position has an address, and none listed before it has.
pub open spec fn is_first_with_mac(lights: Seq<SmartLight>, i: int, mac: Seq<char>) -> bool {
    &&& 0 <= i < lights.len()
    &&& lights[i].value.mac_address@ == mac
    &&& forall|j: int| 0 <= j < i ==> (#[trigger] lights[j]).value.mac_address@ != mac
}

/// The light found for an address among listed topics is the first with that address, and its topic
/// is the one found; there is none only if no listed light has the address.
pub proof fn law_first_light_of_topics(lights: Seq<SmartLight>, mac: Seq<char>)
    ensures
        match light_of_mac(lights_read(lights), mac) {
            Some(light) => exists|i: int| #[trigger] is_first_with_mac(lights, i, mac) && light
                == lights[i]@ && topic_of_mac(lights_read(lights), mac) == Some(
                lights[i].topic_uuid@,
            ),
            None => topic_of_mac(lights_read(lights), mac) is None && forall|i: int|
                0 <= i < lights.len() ==> (#[trigger] lights[i]).value.mac_address@ != mac,
        },
    decreases lights.len(),
{
    let all = lights_read(lights);
    if lights.len() > 0 {
        if lights[0].value.mac_address@ == mac {
            assert(is_first_with_mac(lights, 0, mac) && all[0] == lights[0]@);
        } else {
            let rest = lights.drop_first();
            assert(all.drop_first() =~= lights_read(rest));
            law_first_light_of_topics(rest, mac);
            if light_of_mac(all, mac) is Some {
                let light = light_of_mac(all, mac)->0;
                let i = choose|i: int| #[trigger]
                    is_first_with_mac(rest, i, mac) && light == rest[i]@ && topic_of_mac(
                        lights_read(rest),
                        mac,
                    ) == Some(rest[i].topic_uuid@);
                assert(lights[i + 1] == rest[i]);
                assert forall|j: int| 0 <= j < i + 1 implies (
                #[trigger] lights[j]).value.mac_address@ != mac by {
                    if j > 0 {
                        assert(lights[j] == rest[j - 1]);
                    }
                }
                assert(is_first_with_mac(lights, i + 1, mac));
            } else {
                assert forall|j: int| 0 <= j < lights.len() implies (
                #[trigger] lights[j]).value.mac_address@ != mac by {
                    if j > 0 {
                        assert(lights[j] == rest[j - 1]);
                    }
                }
            }
        }
    }
}

/// The name of a light is the same words for each, followed by the position of its device counted
/// from one, in decimal without leading zeros.
pub proof fn law_light_name_counts_from_one(index: nat)
    ensures
        light_name(index).len() > 18,
        light_name(index).take(18) == "Luce Intelligente "@,
        number_read(light_name(index).skip(18)) == index + 1,
        light_name(index)[18] != '0',
        forall|i: int|
            18 <= i < light_name(index).len() ==> '0' <= #[trigger] light_name(index)[i] <= '9',
{
    reveal_strlit("Luce Intelligente ");
    law_decimal_reads_back(index + 1);
    let (prefix, digits) = ("Luce Intelligente "@, decimal(index + 1));
    assert(light_name(index).take(18) =~= prefix);
    assert(light_name(index).skip(18) =~= digits);
    assert forall|i: int| 18 <= i < light_name(index).len() implies '0' <= #[trigger] light_name(
        index,
    )[i] <= '9' by {
        assert(light_name(index)[i] == digits[i - 18]);
    }
    assert(light_name(index)[18] == digits[0]);
}

/// What the events of a device speak of is the status, the temperature and the mode of its light,
/// and after a message these are what the events make of them.
pub proof fn law_update_changes_what_events_speak_of(light: Light, mac: Seq<char>, events: Events)
    ensures
        light.state() == (DeviceState {
            status: light.status,
            temperature: light.temperature,
            mode: light.mode,
        }),
        light.after(mac, events).status == state_after(light.state(), events).status,
        light.after(mac, events).temperature == state_after(light.state(), events).temperature,
        light.after(mac, events).mode == state_after(light.state(), events).mode,
{
}

} // verus!
