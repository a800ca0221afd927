//! What holds of every pass over the devices of a scan.

use crate::devices::{
    law_new_devices_are_the_unknown_ones, law_new_devices_keep_order, new_among, Device, Found,
};
use crate::lights::{law_topic_of_mac_is_first, topic_of_mac, LightTopic};
use crate::pass::{
    after_reconciling, follows, goes_on, one_draw_each, reconcile_from, register_listed, requested,
    KnownTopic, Registration, Step, EVENT_BUFFER_SIZE,
};
use crate::state::{every_device_has_a_topic, Mappings};
use crate::topics::is_random_uuid;
use vstd::prelude::*;

verus! {

/// The device at a position of a scan can be used and its address has a topic.
pub open spec fn has_topic(devices: Seq<Device>, index: int, mappings: Mappings) -> bool {
    match devices[index].found(index as usize) {
        Some(device) => mappings.mac_uuid.contains_key(device.mac),
        None => false,
    }
}

/// A pass asks for the topics of known devices in the order of the scan and leaves none out. It
/// looks for new devices only after the last of them.
pub proof fn law_no_known_device_is_left_out(devices: Seq<Device>, from: int, mappings: Mappings)
    requires
        0 <= from,
        devices.len() <= usize::MAX,
    ensures
        match reconcile_from(devices, from, mappings) {
            Step::Check(known) => {
                &&& known.devices == devices
                &&& from <= known.device.index < devices.len()
                &&& devices[known.device.index as int].found(known.device.index) == Some(
                    known.device,
                )
                &&& mappings.uuid(known.device.mac) == Some(known.topic)
                &&& forall|j: int|
                    from <= j < known.device.index ==> !#[trigger] has_topic(devices, j, mappings)
            },
            Step::List(new_devices) => {
                &&& new_devices == new_among(devices, mappings.id_mac.values())
                &&& new_devices.len() > 0
                &&& forall|j: int|
                    from <= j < devices.len() ==> !#[trigger] has_topic(devices, j, mappings)
            },
            Step::Finish => {
                &&& new_among(devices, mappings.id_mac.values()).len() == 0
                &&& forall|j: int|
                    from <= j < devices.len() ==> !#[trigger] has_topic(devices, j, mappings)
            },
            _ => false,
        },
    decreases devices.len() - from,
{
    if from < devices.len() && !has_topic(devices, from, mappings) {
        law_no_known_device_is_left_out(devices, from + 1, mappings);
        assert(reconcile_from(devices, from, mappings) == reconcile_from(
            devices,
            from + 1,
            mappings,
        ));
    }
}

/// Devices stand in the order of their positions, none twice.
pub open spec fn in_scan_order(new_devices: Seq<Found>) -> bool {
    forall|i: int, j: int|
        0 <= i < j < new_devices.len() ==> (#[trigger] new_devices[i]).index < (
        #[trigger] new_devices[j]).index
}

/// A new device that a listed light stands for is recorded with the topic of that light.
pub open spec fn recorded_if_listed(
    lights: Seq<LightTopic>,
    device: Found,
    mappings: Mappings,
) -> bool {
    topic_of_mac(lights, device.mac) matches Some(topic) ==> {
        &&& mappings.mac(device.index) == Some(device.mac)
        &&& mappings.uuid(device.mac) == Some(topic)
    }
}

/// A known device stands at its position of the scan.
pub open spec fn stands_in_scan(known: KnownTopic) -> bool {
    &&& known.device.index < known.devices.len() <= usize::MAX
    &&& known.devices[known.device.index as int].found(known.device.index) == Some(known.device)
}

/// What is true of every step that a pass reaches, with the mappings at that time:
/// - it asks whether a topic exists only for a device at its place in the scan, and the topic is
///   the one recorded;
/// - it repairs the topic of such a device only, under a random identifier;
/// - it lists the lights only if there is a device that is not known;
/// - it creates a topic, under a random identifier, only for a device that no listed light stands
///   for, and by then each listed device before it is recorded;
/// - it starts the receivers again with the same room for messages each time.
pub open spec fn sound(step: Step, mappings: Mappings) -> bool {
    match step {
        Step::Check(known) => {
            &&& stands_in_scan(known)
            &&& mappings.uuid(known.device.mac) == Some(known.topic)
        },
        Step::Repair(known) => {
            &&& stands_in_scan(known)
            &&& mappings.mac_uuid.contains_key(known.device.mac)
            &&& is_random_uuid(known.topic)
        },
        Step::List(new_devices) => {
            &&& new_devices.len() > 0
            &&& in_scan_order(new_devices)
            &&& forall|j: int|
                0 <= j < new_devices.len() ==> !mappings.id_mac.values().contains(
                    (#[trigger] new_devices[j]).mac,
                )
        },
        Step::Create(registration) => {
            &&& 0 <= registration.next < registration.new_devices.len()
            &&& in_scan_order(registration.new_devices)
            &&& topic_of_mac(registration.lights, registration.device().mac) is None
            &&& is_random_uuid(registration.topic)
            &&& forall|j: int|
                0 <= j < registration.next ==> recorded_if_listed(
                    registration.lights,
                    #[trigger] registration.new_devices[j],
                    mappings,
                )
        },
        Step::Restart { buffer_size } => buffer_size == EVENT_BUFFER_SIZE,
        Step::Finish => true,
    }
}

proof fn lemma_reconciling_is_sound(devices: Seq<Device>, from: int, mappings: Mappings)
    requires
        0 <= from,
        devices.len() <= usize::MAX,
    ensures
        sound(reconcile_from(devices, from, mappings), mappings),
{
    law_no_known_device_is_left_out(devices, from, mappings);
    if let Step::List(new_devices) = reconcile_from(devices, from, mappings) {
        let known = mappings.id_mac.values();
        law_new_devices_keep_order(devices, known);
        assert forall|j: int| 0 <= j < new_devices.len() implies !known.contains(
            (#[trigger] new_devices[j]).mac,
        ) by {
            assert(new_devices.contains(new_devices[j]));
            law_new_devices_are_the_unknown_ones(devices, known, new_devices[j]);
        }
    }
}

/// A pass starts with a sound step.
pub proof fn law_pass_starts_sound(devices: Seq<Device>, mappings: Mappings)
    requires
        devices.len() <= usize::MAX,
    ensures
        sound(reconcile_from(devices, 0, mappings), mappings),
{
    lemma_reconciling_is_sound(devices, 0, mappings);
}

proof fn lemma_register_listed(
    lights: Seq<LightTopic>,
    new_devices: Seq<Found>,
    from: int,
    mappings: Mappings,
)
    requires
        0 <= from <= new_devices.len(),
        in_scan_order(new_devices),
    ensures
        ({
            let (next, after) = register_listed(lights, new_devices, from, mappings);
            &&& from <= next <= new_devices.len()
            &&& next < new_devices.len() ==> topic_of_mac(lights, new_devices[next].mac) is None
            &&& forall|j: int|
                0 <= j < from ==> after.mac((#[trigger] new_devices[j]).index) == mappings.mac(
                    new_devices[j].index,
                )
            &&& forall|j: int|
                from <= j < next ==> recorded_if_listed(
                    lights,
                    #[trigger] new_devices[j],
                    after,
                )
            &&& forall|j: int|
                from <= j < next ==> topic_of_mac(
                    lights,
                    (#[trigger] new_devices[j]).mac,
                ) is Some
            &&& forall|mac: Seq<char>| #[trigger]
                after.uuid(mac) == mappings.uuid(mac) || after.uuid(mac) == topic_of_mac(
                    lights,
                    mac,
                )
            &&& forall|mac: Seq<char>|
                topic_of_mac(lights, mac) is None ==> #[trigger] after.uuid(mac) == mappings.uuid(
                    mac,
                )
            &&& mappings.mac_uuid.dom().subset_of(after.mac_uuid.dom())
            &&& mappings.id_mac.dom().subset_of(after.id_mac.dom())
            &&& every_device_has_a_topic(mappings) ==> every_device_has_a_topic(after)
        }),
    decreases new_devices.len() - from,
{
    if from < new_devices.len() {
        let device = new_devices[from];
        if let Some(topic) = topic_of_mac(lights, device.mac) {
            lemma_register_listed(
                lights,
                new_devices,
                from + 1,
                mappings.record(device.index, device.mac, topic),
            );
        }
    }
}

/// Each step of a pass leads to a sound step.
pub proof fn law_pass_stays_sound(step: Step, before: Mappings, next: Step, after: Mappings)
    requires
        sound(step, before),
        follows(step, before, next, after),
    ensures
        sound(next, after),
{
    match step {
        Step::Check(known) => {
            lemma_reconciling_is_sound(known.devices, known.device.index + 1, before);
        },
        Step::Repair(known) => {
            lemma_reconciling_is_sound(known.devices, known.device.index + 1, after);
        },
        Step::List(new_devices) => {
            let lights = choose|lights: Seq<LightTopic>|
                #[trigger] goes_on(lights, new_devices, 0, before, next, after);
            lemma_register_listed(lights, new_devices, 0, before);
        },
        Step::Create(registration) => {
            let recorded = registration.record(before);
            lemma_register_listed(
                registration.lights,
                registration.new_devices,
                registration.next + 1,
                before,
            );
            lemma_register_listed(
                registration.lights,
                registration.new_devices,
                registration.next + 1,
                recorded,
            );
        },
        _ => {},
    }
}

/// How many more things a pass can ask for, at most.
pub open spec fn steps_left(step: Step) -> int {
    match step {
        Step::Check(known) => 3 * known.devices.len() + 2 - 2 * known.device.index,
        Step::Repair(known) => 3 * known.devices.len() + 1 - 2 * known.device.index,
        Step::List(new_devices) => new_devices.len() as int + 2,
        Step::Create(registration) => registration.new_devices.len() - registration.next + 1,
        Step::Restart { .. } => 1,
        Step::Finish => 0,
    }
}

/// A pass comes to an end: each step leaves it fewer things to ask for, and a pass over a scan
/// asks for at most three things per device and two more.
pub proof fn law_pass_ends(
    devices: Seq<Device>,
    start: Mappings,
    step: Step,
    before: Mappings,
    next: Step,
    after: Mappings,
)
    requires
        devices.len() <= usize::MAX,
        sound(step, before),
        follows(step, before, next, after),
    ensures
        steps_left(reconcile_from(devices, 0, start)) <= 3 * devices.len() + 2,
        0 <= steps_left(next) < steps_left(step),
{
    law_no_known_device_is_left_out(devices, 0, start);
    law_new_devices_keep_order(devices, start.id_mac.values());
    match step {
        Step::Check(known) => {
            law_no_known_device_is_left_out(known.devices, known.device.index + 1, before);
            law_new_devices_keep_order(known.devices, before.id_mac.values());
        },
        Step::Repair(known) => {
            law_no_known_device_is_left_out(known.devices, known.device.index + 1, after);
            law_new_devices_keep_order(known.devices, after.id_mac.values());
        },
        Step::List(new_devices) => {
            let lights = choose|lights: Seq<LightTopic>|
                #[trigger] goes_on(lights, new_devices, 0, before, next, after);
            lemma_register_listed(lights, new_devices, 0, before);
        },
        Step::Create(registration) => {
            lemma_register_listed(
                registration.lights,
                registration.new_devices,
                registration.next + 1,
                before,
            );
            lemma_register_listed(
                registration.lights,
                registration.new_devices,
                registration.next + 1,
                registration.record(before),
            );
        },
        _ => {},
    }
}

/// No step of a pass forgets that an address has a topic or that a position has a device, and
/// each keeps it true that every device has a topic.
pub proof fn law_pass_forgets_nothing(step: Step, before: Mappings, next: Step, after: Mappings)
    requires
        sound(step, before),
        follows(step, before, next, after),
    ensures
        before.mac_uuid.dom().subset_of(after.mac_uuid.dom()),
        before.id_mac.dom().subset_of(after.id_mac.dom()),
        every_device_has_a_topic(before) ==> every_device_has_a_topic(after),
{
    match step {
        Step::List(new_devices) => {
            let lights = choose|lights: Seq<LightTopic>|
                #[trigger] goes_on(lights, new_devices, 0, before, next, after);
            lemma_register_listed(lights, new_devices, 0, before);
        },
        Step::Create(registration) => {
            lemma_register_listed(
                registration.lights,
                registration.new_devices,
                registration.next + 1,
                before,
            );
            lemma_register_listed(
                registration.lights,
                registration.new_devices,
                registration.next + 1,
                registration.record(before),
            );
        },
        _ => {},
    }
}

/// Where a pass stands: the step it asks for, and the mappings at that time.
pub struct PassState {
    pub step: Step,
    pub mappings: Mappings,
}

/// The state after a position of a run of a pass follows upon the state there.
pub open spec fn next_follows(states: Seq<PassState>, i: int) -> bool {
    follows(states[i].step, states[i].mappings, states[i + 1].step, states[i + 1].mappings)
}

/// A pass over a scan goes through these states.
pub open spec fn is_pass(devices: Seq<Device>, states: Seq<PassState>) -> bool {
    &&& devices.len() <= usize::MAX
    &&& states.len() > 0
    &&& states[0].step == reconcile_from(devices, 0, states[0].mappings)
    &&& forall|i: int| 0 <= i < states.len() - 1 ==> #[trigger] next_follows(states, i)
}

/// Every step of a pass is sound.
pub proof fn law_every_step_of_a_pass_is_sound(
    devices: Seq<Device>,
    states: Seq<PassState>,
    i: int,
)
    requires
        is_pass(devices, states),
        0 <= i < states.len(),
    ensures
        sound(states[i].step, states[i].mappings),
    decreases i,
{
    if i == 0 {
        law_pass_starts_sound(devices, states[0].mappings);
    } else {
        law_every_step_of_a_pass_is_sound(devices, states, i - 1);
        assert(next_follows(states, i - 1));
        law_pass_stays_sound(
            states[i - 1].step,
            states[i - 1].mappings,
            states[i].step,
            states[i].mappings,
        );
    }
}

/// A pass starts the receivers again at most once, with room for [`EVENT_BUFFER_SIZE`] messages,
/// as its last step: all mappings are up to date by then.
pub proof fn law_restart_comes_once_and_last(devices: Seq<Device>, states: Seq<PassState>, i: int)
    requires
        is_pass(devices, states),
        0 <= i < states.len(),
        states[i].step is Restart,
    ensures
        i == states.len() - 1,
        states[i].step == (Step::Restart { buffer_size: EVENT_BUFFER_SIZE }),
{
    law_every_step_of_a_pass_is_sound(devices, states, i);
    if i < states.len() - 1 {
        assert(next_follows(states, i));
    }
}

proof fn lemma_after_listing(devices: Seq<Device>, states: Seq<PassState>, i: int, j: int)
    requires
        is_pass(devices, states),
        0 <= i < j < states.len(),
        states[i].step is List,
    ensures
        states[j].step is Create || states[j].step is Restart,
    decreases j,
{
    assert(next_follows(states, j - 1));
    if j - 1 > i {
        lemma_after_listing(devices, states, i, j - 1);
    }
}

/// A pass that has found new devices and has had the lights listed ends with the restart of the
/// receivers, whether topics could be created or not: it is there, or asks for a topic on its way
/// there.
pub proof fn law_pass_with_new_devices_ends_with_restart(
    devices: Seq<Device>,
    states: Seq<PassState>,
    i: int,
)
    requires
        is_pass(devices, states),
        0 <= i < states.len() - 1,
        states[i].step is List,
    ensures
        states.last().step is Create || states.last().step == (Step::Restart {
            buffer_size: EVENT_BUFFER_SIZE,
        }),
{
    lemma_after_listing(devices, states, i, states.len() - 1);
    law_every_step_of_a_pass_is_sound(devices, states, states.len() - 1);
}

/// The mappings after the known devices of a scan from a position on have been seen to, where
/// the topic of a device that is gone is replaced by the given one.
pub open spec fn reconciled(
    devices: Seq<Device>,
    from: int,
    mappings: Mappings,
    replaced: spec_fn(int) -> Option<Seq<char>>,
) -> Mappings
    decreases devices.len() - from,
{
    if from >= devices.len() {
        mappings
    } else {
        let mappings = match (devices[from].found(from as usize), replaced(from)) {
            (Some(device), Some(topic)) if mappings.mac_uuid.contains_key(device.mac)
                => mappings.record(device.index, device.mac, topic),
            _ => mappings,
        };
        reconciled(devices, from + 1, mappings, replaced)
    }
}

/// The questions and repairs of a pass, one after the other, come to these mappings.
pub proof fn law_reconciling_step_by_step(
    devices: Seq<Device>,
    from: int,
    mappings: Mappings,
    replaced: spec_fn(int) -> Option<Seq<char>>,
)
    requires
        0 <= from,
        devices.len() <= usize::MAX,
    ensures
        reconciled(devices, from, mappings, replaced) == match reconcile_from(
            devices,
            from,
            mappings,
        ) {
            Step::Check(known) => reconciled(
                devices,
                known.device.index + 1,
                match replaced(known.device.index as int) {
                    Some(topic) => mappings.record(known.device.index, known.device.mac, topic),
                    None => mappings,
                },
                replaced,
            ),
            _ => mappings,
        },
    decreases devices.len() - from,
{
    if from < devices.len() && !has_topic(devices, from, mappings) {
        law_reconciling_step_by_step(devices, from + 1, mappings, replaced);
    }
}

/// Seeing to the known devices of a scan brings no address a topic that had none, and takes none
/// from an address. Where no device of an address gets another topic, its topic stays, and where
/// the last such device does, it has that topic.
pub proof fn law_reconciling_replaces_only_lost_topics(
    devices: Seq<Device>,
    from: int,
    mappings: Mappings,
    replaced: spec_fn(int) -> Option<Seq<char>>,
    mac: Seq<char>,
)
    requires
        0 <= from,
        devices.len() <= usize::MAX,
    ensures
        reconciled(devices, from, mappings, replaced).mac_uuid.dom() == mappings.mac_uuid.dom(),
        (forall|j: int|
            from <= j < devices.len() && (#[trigger] devices[j].found(j as usize) matches Some(
                device,
            ) && device.mac == mac) ==> replaced(j) is None) ==> reconciled(
            devices,
            from,
            mappings,
            replaced,
        ).uuid(mac) == mappings.uuid(mac),
        forall|k: int|
            #![trigger replaced(k)]
            {
                &&& from <= k < devices.len()
                &&& devices[k].found(k as usize) matches Some(device)
                &&& device.mac == mac
                &&& mappings.mac_uuid.contains_key(mac)
                &&& replaced(k) is Some
                &&& forall|j: int|
                    k < j < devices.len() && (#[trigger] devices[j].found(j as usize) matches Some(
                        device,
                    ) && device.mac == mac) ==> replaced(j) is None
            } ==> reconciled(devices, from, mappings, replaced).uuid(mac) == replaced(k),
    decreases devices.len() - from,
{
    if from < devices.len() {
        let after = match (devices[from].found(from as usize), replaced(from)) {
            (Some(device), Some(topic)) if mappings.mac_uuid.contains_key(device.mac)
                => mappings.record(device.index, device.mac, topic),
            _ => mappings,
        };
        law_reconciling_replaces_only_lost_topics(devices, from + 1, after, replaced, mac);
        assert(after.mac_uuid.dom() =~= mappings.mac_uuid.dom());
    }
}

/// Seeing to the known devices of a scan changes a position only to the address of the device that
/// stands there, and only where that device gets another topic.
pub proof fn law_reconciling_moves_no_address(
    devices: Seq<Device>,
    from: int,
    mappings: Mappings,
    replaced: spec_fn(int) -> Option<Seq<char>>,
    id: usize,
)
    requires
        0 <= from,
        devices.len() <= usize::MAX,
    ensures
        ({
            let after = reconciled(devices, from, mappings, replaced);
            ||| after.mac(id) == mappings.mac(id)
            ||| {
                &&& from <= id < devices.len()
                &&& devices[id as int].found(id) matches Some(device)
                &&& after.mac(id) == Some(device.mac)
                &&& mappings.mac_uuid.contains_key(device.mac)
                &&& replaced(id as int) is Some
            }
        }),
    decreases devices.len() - from,
{
    if from < devices.len() {
        let next = match (devices[from].found(from as usize), replaced(from)) {
            (Some(device), Some(topic)) if mappings.mac_uuid.contains_key(device.mac)
                => mappings.record(device.index, device.mac, topic),
            _ => mappings,
        };
        law_reconciling_moves_no_address(devices, from + 1, next, replaced, id);
    }
}

/// What a pass asks for after the known devices of a scan from a position on, where each topic that
/// it asks about exists.
pub open spec fn after_checks(devices: Seq<Device>, from: int, mappings: Mappings) -> Step
    decreases devices.len() - from,
{
    match reconcile_from(devices, from, mappings) {
        Step::Check(known) => if from <= known.device.index < devices.len() {
            after_checks(devices, known.device.index + 1, mappings)
        } else {
            Step::Check(known)
        },
        step => step,
    }
}

/// Where each topic that a pass asks about exists, the pass comes to the new devices of the scan,
/// and the known devices keep their topics and positions.
pub proof fn law_pass_comes_to_the_new_devices(devices: Seq<Device>, from: int, mappings: Mappings)
    requires
        0 <= from,
        devices.len() <= usize::MAX,
    ensures
        after_checks(devices, from, mappings) == after_reconciling(devices, mappings),
        reconciled(devices, from, mappings, |index: int| None::<Seq<char>>) == mappings,
    decreases devices.len() - from,
{
    law_no_known_device_is_left_out(devices, from, mappings);
    if let Step::Check(known) = reconcile_from(devices, from, mappings) {
        law_pass_comes_to_the_new_devices(devices, known.device.index + 1, mappings);
    }
    law_reconciling_step_by_step(devices, from, mappings, |index: int| None::<Seq<char>>);
}

/// A pass over a scan whose usable devices are all known at their places, with every topic existing,
/// finishes and changes nothing.
pub proof fn law_pass_over_known_devices_changes_nothing(devices: Seq<Device>, mappings: Mappings)
    requires
        devices.len() <= usize::MAX,
        forall|j: int|
            0 <= j < devices.len() ==> (#[trigger] devices[j].found(j as usize) matches Some(device)
                ==> mappings.mac(j as usize) == Some(device.mac)),
    ensures
        after_checks(devices, 0, mappings) == Step::Finish,
        reconciled(devices, 0, mappings, |index: int| None::<Seq<char>>) == mappings,
{
    law_pass_comes_to_the_new_devices(devices, 0, mappings);
    let known = mappings.id_mac.values();
    let new_devices = new_among(devices, known);
    if new_devices.len() > 0 {
        let device = new_devices[0];
        assert(new_devices.contains(device));
        law_new_devices_are_the_unknown_ones(devices, known, device);
        assert(devices[device.index as int].found(device.index as int as usize) == Some(device));
        assert(mappings.id_mac.contains_key(device.index));
        assert(known.contains(device.mac));
    }
}

/// The topic that a new device gets: that of a listed light, else the one created for it, if any.
pub open spec fn topic_given(
    lights: Seq<LightTopic>,
    new_devices: Seq<Found>,
    created: spec_fn(int) -> Option<Seq<char>>,
    index: int,
) -> Option<Seq<char>> {
    match topic_of_mac(lights, new_devices[index].mac) {
        Some(topic) => Some(topic),
        None => created(index),
    }
}

/// The mappings after the new devices from a position on have been given topics.
pub open spec fn registered(
    lights: Seq<LightTopic>,
    new_devices: Seq<Found>,
    from: int,
    mappings: Mappings,
    created: spec_fn(int) -> Option<Seq<char>>,
) -> Mappings
    decreases new_devices.len() - from,
{
    if from >= new_devices.len() {
        mappings
    } else {
        let mappings = match topic_given(lights, new_devices, created, from) {
            Some(topic) => mappings.record(
                new_devices[from].index,
                new_devices[from].mac,
                topic,
            ),
            None => mappings,
        };
        registered(lights, new_devices, from + 1, mappings, created)
    }
}

/// The requests of a pass for topics of new devices, one after the other, come to these mappings.
pub proof fn law_registering_step_by_step(
    lights: Seq<LightTopic>,
    new_devices: Seq<Found>,
    from: int,
    mappings: Mappings,
    created: spec_fn(int) -> Option<Seq<char>>,
)
    requires
        0 <= from <= new_devices.len(),
    ensures
        ({
            let (next, so_far) = register_listed(lights, new_devices, from, mappings);
            registered(lights, new_devices, from, mappings, created) == if next
                < new_devices.len() {
                registered(
                    lights,
                    new_devices,
                    next + 1,
                    match created(next) {
                        Some(topic) => so_far.record(
                            new_devices[next].index,
                            new_devices[next].mac,
                            topic,
                        ),
                        None => so_far,
                    },
                    created,
                )
            } else {
                so_far
            }
        }),
    decreases new_devices.len() - from,
{
    if from < new_devices.len() {
        let device = new_devices[from];
        if let Some(topic) = topic_of_mac(lights, device.mac) {
            law_registering_step_by_step(
                lights,
                new_devices,
                from + 1,
                mappings.record(device.index, device.mac, topic),
                created,
            );
        }
    }
}

proof fn lemma_registered(
    lights: Seq<LightTopic>,
    new_devices: Seq<Found>,
    from: int,
    mappings: Mappings,
    created: spec_fn(int) -> Option<Seq<char>>,
)
    requires
        0 <= from <= new_devices.len(),
        in_scan_order(new_devices),
    ensures
        ({
            let after = registered(lights, new_devices, from, mappings, created);
            &&& forall|j: int|
                0 <= j < from ==> after.mac((#[trigger] new_devices[j]).index) == mappings.mac(
                    new_devices[j].index,
                )
            &&& forall|j: int|
                from <= j < new_devices.len() ==> after.mac((#[trigger] new_devices[j]).index) == (
                if topic_given(lights, new_devices, created, j) is Some {
                    Some(new_devices[j].mac)
                } else {
                    mappings.mac(new_devices[j].index)
                })
            &&& forall|mac: Seq<char>| #[trigger]
                after.id_mac.values().contains(mac) ==> mappings.id_mac.values().contains(mac) || (
                exists|j: int|
                    from <= j < new_devices.len() && (#[trigger] new_devices[j]).mac == mac
                        && topic_given(lights, new_devices, created, j) is Some)
        }),
    decreases new_devices.len() - from,
{
    if from < new_devices.len() {
        let device = new_devices[from];
        let next = match topic_given(lights, new_devices, created, from) {
            Some(topic) => mappings.record(device.index, device.mac, topic),
            None => mappings,
        };
        lemma_registered(lights, new_devices, from + 1, next, created);
        let after = registered(lights, new_devices, from, mappings, created);
        assert forall|mac: Seq<char>| #[trigger] after.id_mac.values().contains(mac) implies {
            ||| mappings.id_mac.values().contains(mac)
            ||| exists|j: int|
                from <= j < new_devices.len() && (#[trigger] new_devices[j]).mac == mac
                    && topic_given(lights, new_devices, created, j) is Some
        } by {
            if next.id_mac.values().contains(mac) {
                let id = choose|id: usize| next.id_mac.contains_key(id) && next.id_mac[id] == mac;
                if mappings.id_mac.contains_key(id) && mappings.id_mac[id] == mac {
                    assert(mappings.id_mac.values().contains(mac));
                } else {
                    assert(new_devices[from].mac == mac);
                }
            }
        }
    }
}

proof fn lemma_registered_topics(
    lights: Seq<LightTopic>,
    new_devices: Seq<Found>,
    from: int,
    mappings: Mappings,
    created: spec_fn(int) -> Option<Seq<char>>,
    mac: Seq<char>,
)
    requires
        0 <= from <= new_devices.len(),
    ensures
        ({
            let after = registered(lights, new_devices, from, mappings, created);
            &&& (forall|j: int|
                from <= j < new_devices.len() && (#[trigger] new_devices[j]).mac == mac
                    ==> topic_given(lights, new_devices, created, j) is None) ==> after.uuid(mac)
                == mappings.uuid(mac)
            &&& forall|k: int|
                {
                    &&& from <= k < new_devices.len()
                    &&& (#[trigger] new_devices[k]).mac == mac
                    &&& topic_given(lights, new_devices, created, k) is Some
                    &&& forall|j: int|
                        k < j < new_devices.len() && (#[trigger] new_devices[j]).mac == mac
                            ==> topic_given(lights, new_devices, created, j) is None
                } ==> after.uuid(mac) == topic_given(lights, new_devices, created, k)
        }),
    decreases new_devices.len() - from,
{
    if from < new_devices.len() {
        let device = new_devices[from];
        let next = match topic_given(lights, new_devices, created, from) {
            Some(topic) => mappings.record(device.index, device.mac, topic),
            None => mappings,
        };
        lemma_registered_topics(lights, new_devices, from + 1, next, created, mac);
    }
}

/// A new device that is given a topic is known at its position from then on. One that is not
/// leaves its position as it was.
pub proof fn law_new_device_is_registered(
    lights: Seq<LightTopic>,
    new_devices: Seq<Found>,
    mappings: Mappings,
    created: spec_fn(int) -> Option<Seq<char>>,
    index: int,
)
    requires
        in_scan_order(new_devices),
        0 <= index < new_devices.len(),
    ensures
        registered(lights, new_devices, 0, mappings, created).mac(new_devices[index].index) == (
        if topic_given(lights, new_devices, created, index) is Some {
            Some(new_devices[index].mac)
        } else {
            mappings.mac(new_devices[index].index)
        }),
{
    lemma_registered(lights, new_devices, 0, mappings, created);
}

/// An address has the topic that the last of its new devices was given, and keeps the topic that
/// it had, if it had one, where none was given.
pub proof fn law_last_given_topic_counts(
    lights: Seq<LightTopic>,
    new_devices: Seq<Found>,
    mappings: Mappings,
    created: spec_fn(int) -> Option<Seq<char>>,
    mac: Seq<char>,
)
    ensures
        (forall|j: int|
            0 <= j < new_devices.len() && (#[trigger] new_devices[j]).mac == mac ==> topic_given(
                lights,
                new_devices,
                created,
                j,
            ) is None) ==> registered(lights, new_devices, 0, mappings, created).uuid(mac)
            == mappings.uuid(mac),
        forall|k: int|
            {
                &&& 0 <= k < new_devices.len()
                &&& (#[trigger] new_devices[k]).mac == mac
                &&& topic_given(lights, new_devices, created, k) is Some
                &&& forall|j: int|
                    k < j < new_devices.len() && (#[trigger] new_devices[j]).mac == mac
                        ==> topic_given(lights, new_devices, created, j) is None
            } ==> registered(lights, new_devices, 0, mappings, created).uuid(mac) == topic_given(
                lights,
                new_devices,
                created,
                k,
            ),
{
    lemma_registered_topics(lights, new_devices, 0, mappings, created, mac);
}

/// A later scan takes no device for new that was given a topic, whatever else it turns up.
pub proof fn law_registered_device_is_not_new_again(
    lights: Seq<LightTopic>,
    new_devices: Seq<Found>,
    mappings: Mappings,
    created: spec_fn(int) -> Option<Seq<char>>,
    index: int,
    devices: Seq<Device>,
    found: Found,
)
    requires
        in_scan_order(new_devices),
        0 <= index < new_devices.len(),
        topic_given(lights, new_devices, created, index) is Some,
        devices.len() <= usize::MAX,
        found.mac == new_devices[index].mac,
    ensures
        !new_among(
            devices,
            registered(lights, new_devices, 0, mappings, created).id_mac.values(),
        ).contains(found),
{
    let after = registered(lights, new_devices, 0, mappings, created);
    law_new_device_is_registered(lights, new_devices, mappings, created, index);
    assert(after.id_mac.contains_key(new_devices[index].index));
    assert(after.id_mac.values().contains(found.mac));
    law_new_devices_are_the_unknown_ones(devices, after.id_mac.values(), found);
}

/// A device that was new, but of whose address no device was given a topic, is new again in a
/// later scan that turns it up.
pub proof fn law_failed_device_is_new_again(
    lights: Seq<LightTopic>,
    new_devices: Seq<Found>,
    mappings: Mappings,
    created: spec_fn(int) -> Option<Seq<char>>,
    devices: Seq<Device>,
    found: Found,
)
    requires
        in_scan_order(new_devices),
        !mappings.id_mac.values().contains(found.mac),
        forall|j: int|
            0 <= j < new_devices.len() && (#[trigger] new_devices[j]).mac == found.mac
                ==> topic_given(lights, new_devices, created, j) is None,
        devices.len() <= usize::MAX,
        found.index < devices.len(),
        devices[found.index as int].found(found.index) == Some(found),
    ensures
        new_among(
            devices,
            registered(lights, new_devices, 0, mappings, created).id_mac.values(),
        ).contains(found),
{
    let after = registered(lights, new_devices, 0, mappings, created);
    lemma_registered(lights, new_devices, 0, mappings, created);
    law_new_devices_are_the_unknown_ones(devices, after.id_mac.values(), found);
}

/// A step of a pass, with the identifiers drawn in the pass up to it.
pub struct DrawState {
    pub step: Step,
    pub draws: Seq<Seq<char>>,
}

/// Between the state at a position and the next, each topic asked for has a draw of its own.
pub open spec fn next_draws(states: Seq<DrawState>, i: int) -> bool {
    one_draw_each(states[i].draws, states[i + 1].step, states[i + 1].draws)
}

/// A pass draws identifiers in this way: nothing has been drawn at its first step, and each topic
/// asked for has a draw of its own.
pub open spec fn is_drawn(states: Seq<DrawState>) -> bool {
    &&& states.len() > 0
    &&& one_draw_each(Seq::empty(), states[0].step, states[0].draws)
    &&& forall|i: int| 0 <= i < states.len() - 1 ==> #[trigger] next_draws(states, i)
}

/// Each request for a topic uses the identifier drawn last, which no earlier request has used: what
/// was drawn for the others stands before it in the record, and stays there.
pub proof fn law_each_request_has_a_draw_of_its_own(states: Seq<DrawState>, i: int, j: int)
    requires
        is_drawn(states),
        0 <= i <= j < states.len(),
    ensures
        requested(states[i].step) matches Some(topic) ==> states[i].draws.len() > 0
            && states[i].draws.last() == topic,
        states[i].draws.is_prefix_of(states[j].draws),
        i < j && requested(states[j].step) is Some ==> states[i].draws.len()
            < states[j].draws.len(),
    decreases j,
{
    if i > 0 {
        assert(next_draws(states, i - 1));
    }
    if i < j {
        assert(next_draws(states, j - 1));
        law_each_request_has_a_draw_of_its_own(states, i, j - 1);
    }
}

/// As long as no identifier comes up twice among those drawn, no two requests of a pass ask for the
/// same topic.
pub proof fn law_requests_of_a_pass_differ(states: Seq<DrawState>, i: int, j: int)
    requires
        is_drawn(states),
        0 <= i < j < states.len(),
        requested(states[i].step) is Some,
        requested(states[j].step) is Some,
        states.last().draws.no_duplicates(),
    ensures
        requested(states[i].step) != requested(states[j].step),
{
    let all = states.last().draws;
    law_each_request_has_a_draw_of_its_own(states, i, j);
    law_each_request_has_a_draw_of_its_own(states, i, states.len() - 1);
    law_each_request_has_a_draw_of_its_own(states, j, states.len() - 1);
    let (a, b) = (states[i].draws.len() - 1, states[j].draws.len() - 1);
    assert(all[a] == states[i].draws[a]);
    assert(all[b] == states[j].draws[b]);
}

/// The same of requests of two passes.
pub proof fn law_requests_of_two_passes_differ(
    first: Seq<DrawState>,
    second: Seq<DrawState>,
    i: int,
    j: int,
)
    requires
        is_drawn(first),
        is_drawn(second),
        0 <= i < first.len(),
        0 <= j < second.len(),
        requested(first[i].step) is Some,
        requested(second[j].step) is Some,
        (first.last().draws + second.last().draws).no_duplicates(),
    ensures
        requested(first[i].step) != requested(second[j].step),
{
    let all = first.last().draws + second.last().draws;
    law_each_request_has_a_draw_of_its_own(first, i, first.len() - 1);
    law_each_request_has_a_draw_of_its_own(second, j, second.len() - 1);
    let (a, b) = (first[i].draws.len() - 1, second[j].draws.len() - 1);
    assert(all[a] == first[i].draws[a]);
    assert(all[first.last().draws.len() + b] == second[j].draws[b]);
}

/// Given topics are new: each is given once, and none is the topic of an address in the mappings.
pub open spec fn all_new(given: spec_fn(int) -> Option<Seq<char>>, mappings: Mappings) -> bool {
    &&& forall|i: int, mac: Seq<char>|
        #![trigger given(i), mappings.uuid(mac)]
        given(i) is Some ==> given(i) != mappings.uuid(mac)
    &&& forall|i: int, j: int|
        #![trigger given(i), given(j)]
        i != j && given(i) is Some ==> given(i) != given(j)
}

proof fn lemma_reconciled_topic(
    devices: Seq<Device>,
    from: int,
    mappings: Mappings,
    replaced: spec_fn(int) -> Option<Seq<char>>,
    mac: Seq<char>,
)
    requires
        0 <= from,
        devices.len() <= usize::MAX,
    ensures
        ({
            let after = reconciled(devices, from, mappings, replaced);
            ||| after.uuid(mac) == mappings.uuid(mac)
            ||| exists|k: int|
                #![trigger replaced(k)]
                {
                    &&& from <= k < devices.len()
                    &&& devices[k].found(k as usize) matches Some(device)
                    &&& device.mac == mac
                    &&& replaced(k) is Some
                    &&& after.uuid(mac) == replaced(k)
                }
        }),
    decreases devices.len() - from,
{
    if from < devices.len() {
        let next = match (devices[from].found(from as usize), replaced(from)) {
            (Some(device), Some(topic)) if mappings.mac_uuid.contains_key(device.mac)
                => mappings.record(device.index, device.mac, topic),
            _ => mappings,
        };
        lemma_reconciled_topic(devices, from + 1, next, replaced, mac);
    }
}

/// Seeing to known devices keeps topics apart: two addresses with different topics, or of which only
/// one has a topic, still differ after lost topics have been replaced by new ones.
pub proof fn law_replaced_topics_stay_apart(
    devices: Seq<Device>,
    from: int,
    mappings: Mappings,
    replaced: spec_fn(int) -> Option<Seq<char>>,
    a: Seq<char>,
    b: Seq<char>,
)
    requires
        0 <= from,
        devices.len() <= usize::MAX,
        all_new(replaced, mappings),
        mappings.uuid(a) != mappings.uuid(b),
    ensures
        reconciled(devices, from, mappings, replaced).uuid(a) != reconciled(
            devices,
            from,
            mappings,
            replaced,
        ).uuid(b),
{
    lemma_reconciled_topic(devices, from, mappings, replaced, a);
    lemma_reconciled_topic(devices, from, mappings, replaced, b);
}

/// Some listed light has an address.
pub open spec fn some_light_has(lights: Seq<LightTopic>, mac: Seq<char>) -> bool {
    exists|l: int| 0 <= l < lights.len() && (#[trigger] lights[l]).value.mac_address == mac
}

/// A new device gets the topic of the first listed light with its address, and where there is no
/// such light, the topic created for it.
pub proof fn law_given_topic_is_that_of_the_light(
    lights: Seq<LightTopic>,
    new_devices: Seq<Found>,
    created: spec_fn(int) -> Option<Seq<char>>,
    index: int,
)
    ensures
        !some_light_has(lights, new_devices[index].mac) ==> topic_given(
            lights,
            new_devices,
            created,
            index,
        ) == created(index),
        some_light_has(lights, new_devices[index].mac) ==> exists|l: int|
            {
                &&& 0 <= l < lights.len()
                &&& (#[trigger] lights[l]).value.mac_address == new_devices[index].mac
                &&& topic_given(lights, new_devices, created, index) == Some(lights[l].topic_uuid)
                &&& forall|m: int|
                    0 <= m < l ==> (#[trigger] lights[m]).value.mac_address
                        != new_devices[index].mac
            },
{
    law_topic_of_mac_is_first(lights, new_devices[index].mac);
}

proof fn lemma_registered_topic(
    lights: Seq<LightTopic>,
    new_devices: Seq<Found>,
    from: int,
    mappings: Mappings,
    created: spec_fn(int) -> Option<Seq<char>>,
    mac: Seq<char>,
)
    requires
        0 <= from <= new_devices.len(),
    ensures
        ({
            let after = registered(lights, new_devices, from, mappings, created);
            ||| after.uuid(mac) == mappings.uuid(mac)
            ||| exists|k: int|
                from <= k < new_devices.len() && (#[trigger] new_devices[k]).mac == mac
                    && after.uuid(mac) == topic_given(lights, new_devices, created, k)
        }),
    decreases new_devices.len() - from,
{
    if from < new_devices.len() {
        let device = new_devices[from];
        let next = match topic_given(lights, new_devices, created, from) {
            Some(topic) => mappings.record(device.index, device.mac, topic),
            None => mappings,
        };
        lemma_registered_topic(lights, new_devices, from + 1, next, created, mac);
    }
}

/// Registering keeps created topics apart: an address that no listed light has shares its topic with
/// no other address afterwards, if it did not before and the created topics are new to the mappings
/// and to the listed lights.
pub proof fn law_created_topics_stay_apart(
    lights: Seq<LightTopic>,
    new_devices: Seq<Found>,
    mappings: Mappings,
    created: spec_fn(int) -> Option<Seq<char>>,
    a: Seq<char>,
    b: Seq<char>,
)
    requires
        a != b,
        !some_light_has(lights, a),
        all_new(created, mappings),
        forall|i: int, l: int|
            #![trigger created(i), lights[l]]
            0 <= l < lights.len() ==> created(i) != Some(lights[l].topic_uuid),
        mappings.uuid(a) is Some ==> mappings.uuid(a) != mappings.uuid(b),
        forall|l: int|
            0 <= l < lights.len() ==> mappings.uuid(a) != Some((#[trigger] lights[l]).topic_uuid),
    ensures
        ({
            let after = registered(lights, new_devices, 0, mappings, created);
            after.uuid(a) is Some ==> after.uuid(a) != after.uuid(b)
        }),
{
    let after = registered(lights, new_devices, 0, mappings, created);
    lemma_registered_topic(lights, new_devices, 0, mappings, created, a);
    lemma_registered_topic(lights, new_devices, 0, mappings, created, b);
    if after.uuid(a) is Some {
        let from_a = after.uuid(a) == mappings.uuid(a);
        let from_b = after.uuid(b) == mappings.uuid(b);
        let i = choose|k: int|
            0 <= k < new_devices.len() && (#[trigger] new_devices[k]).mac == a && after.uuid(a)
                == topic_given(lights, new_devices, created, k);
        let j = choose|k: int|
            0 <= k < new_devices.len() && (#[trigger] new_devices[k]).mac == b && after.uuid(b)
                == topic_given(lights, new_devices, created, k);
        if !from_a {
            law_given_topic_is_that_of_the_light(lights, new_devices, created, i);
            assert(after.uuid(a) == created(i));
        }
        if !from_b {
            law_given_topic_is_that_of_the_light(lights, new_devices, created, j);
            if some_light_has(lights, b) {
                let l = choose|l: int|
                    {
                        &&& 0 <= l < lights.len()
                        &&& (#[trigger] lights[l]).value.mac_address == new_devices[j].mac
                        &&& topic_given(lights, new_devices, created, j) == Some(
                            lights[l].topic_uuid,
                        )
                        &&& forall|m: int|
                            0 <= m < l ==> (#[trigger] lights[m]).value.mac_address
                                != new_devices[j].mac
                    };
                assert(created(i) != Some(lights[l].topic_uuid));
            } else {
                assert(after.uuid(b) == created(j));
            }
        }
    }
}

/// A pass that goes on with the new devices from a position on stops at the first of them whose
/// address no listed light has, and asks for a topic for that one, with the same lights and devices
/// in hand. Where there is none left, it starts the receivers again. The devices it has gone past
/// are recorded with the topic of the first light with their address, and no other position or
/// address is touched.
pub proof fn law_next_request_is_for_the_first_unlisted_device(
    lights: Seq<LightTopic>,
    new_devices: Seq<Found>,
    from: int,
    before: Mappings,
    step: Step,
    after: Mappings,
    id: usize,
    mac: Seq<char>,
)
    requires
        0 <= from <= new_devices.len(),
        in_scan_order(new_devices),
        goes_on(lights, new_devices, from, before, step, after),
    ensures
        ({
            let stop = match step {
                Step::Create(registration) => registration.next,
                _ => new_devices.len() as int,
            };
            &&& from <= stop <= new_devices.len()
            &&& forall|j: int|
                from <= j < stop ==> some_light_has(lights, (#[trigger] new_devices[j]).mac)
            &&& forall|j: int|
                from <= j < stop ==> after.mac((#[trigger] new_devices[j]).index) == Some(
                    new_devices[j].mac,
                ) && after.uuid(new_devices[j].mac) == topic_of_mac(lights, new_devices[j].mac)
            &&& stop < new_devices.len() ==> {
                &&& !some_light_has(lights, new_devices[stop].mac)
                &&& step matches Step::Create(registration)
                &&& registration.lights == lights
                &&& registration.new_devices == new_devices
                &&& is_random_uuid(registration.topic)
            }
            &&& stop == new_devices.len() ==> step == (Step::Restart { buffer_size: 100 })
            &&& (forall|j: int| from <= j < stop ==> (#[trigger] new_devices[j]).index != id)
                ==> after.mac(id) == before.mac(id)
            &&& (forall|j: int| from <= j < stop ==> (#[trigger] new_devices[j]).mac != mac)
                ==> after.uuid(mac) == before.uuid(mac)
        }),
{
    let (next, mappings) = register_listed(lights, new_devices, from, before);
    lemma_register_listed(lights, new_devices, from, before);
    lemma_register_listed_frame(lights, new_devices, from, before, id, mac);
    assert forall|j: int| from <= j < next implies some_light_has(
        lights,
        (#[trigger] new_devices[j]).mac,
    ) by {
        law_topic_of_mac_is_first(lights, new_devices[j].mac);
    }
    if next < new_devices.len() {
        law_topic_of_mac_is_first(lights, new_devices[next].mac);
    }
}

proof fn lemma_register_listed_frame(
    lights: Seq<LightTopic>,
    new_devices: Seq<Found>,
    from: int,
    mappings: Mappings,
    id: usize,
    mac: Seq<char>,
)
    requires
        0 <= from <= new_devices.len(),
    ensures
        ({
            let (next, after) = register_listed(lights, new_devices, from, mappings);
            &&& (forall|j: int| from <= j < next ==> (#[trigger] new_devices[j]).index != id)
                ==> after.mac(id) == mappings.mac(id)
            &&& (forall|j: int| from <= j < next ==> (#[trigger] new_devices[j]).mac != mac)
                ==> after.uuid(mac) == mappings.uuid(mac)
            &&& from <= next
        }),
    decreases new_devices.len() - from,
{
    if from < new_devices.len() {
        let device = new_devices[from];
        if let Some(topic) = topic_of_mac(lights, device.mac) {
            lemma_register_listed_frame(
                lights,
                new_devices,
                from + 1,
                mappings.record(device.index, device.mac, topic),
                id,
                mac,
            );
        }
    }
}

/// A step asks for a topic to be created if and only if it repairs a lost topic or registers a new
/// device, and it asks for the identifier that the request carries.
pub proof fn law_requests_are_repairs_and_creations(
    step: Step,
    known: KnownTopic,
    registration: Registration,
)
    ensures
        requested(Step::Repair(known)) == Some(known.topic),
        requested(Step::Create(registration)) == Some(registration.topic),
        requested(step) is None <==> !(step is Repair) && !(step is Create),
{
}

} // verus!
