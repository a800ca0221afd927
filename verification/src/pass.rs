//! A pass over the devices that a scan of the network turned up.
//!
//! A pass first makes sure that the topics of known devices still exist, then gives a topic to each
//! new device. It asks for one thing at a time, a [`PassStep`], and goes on with the answer.

use crate::devices::{
    find_new_devices, founds, law_new_devices_keep_order, new_among, Device, Found, NewDevice,
};
use crate::json::{json_tree, Json};
use crate::lights::{
    create_smart_light_topic, find_topic, lights_read, new_light_members, topic_of_mac, LightTopic,
    SmartLight, TopicPost,
};
use crate::state::{Mappings, SharedState};
use crate::topics::{fresh_topic_uuid, is_random_uuid, topic_address, topic_url, Draws};
use vstd::prelude::*;

verus! {

/// The number of messages that event receivers hold back.
pub const EVENT_BUFFER_SIZE: usize = 100;

/// A known device with a topic, within a scan.
pub struct KnownTopic {
    pub devices: Seq<Device>,
    pub device: Found,
    pub topic: Seq<char>,
}

/// A new device for which a topic is to be created, among all new devices of a pass.
pub struct Registration {
    pub lights: Seq<LightTopic>,
    pub new_devices: Seq<Found>,
    pub next: int,
    pub topic: Seq<char>,
}

impl Registration {
    /// The new device that comes next.
    pub open spec fn device(self) -> Found {
        self.new_devices[self.next]
    }

    /// The mappings once the new device that comes next has its topic.
    pub open spec fn record(self, mappings: Mappings) -> Mappings {
        mappings.record(self.device().index, self.device().mac, self.topic)
    }
}

/// What a pass asks for next, as contracts see it.
pub enum Step {
    Check(KnownTopic),
    Repair(KnownTopic),
    List(Seq<Found>),
    Create(Registration),
    Restart { buffer_size: usize },
    Finish,
}

/// What a pass asks for once the topics of known devices have been seen to: the lights that have
/// topics, if there is a new device.
pub open spec fn after_reconciling(devices: Seq<Device>, mappings: Mappings) -> Step {
    let new_devices = new_among(devices, mappings.id_mac.values());
    if new_devices.len() == 0 {
        Step::Finish
    } else {
        Step::List(new_devices)
    }
}

/// What a pass asks for from a position of the scan on: whether the topic of the next usable
/// device that has one still exists.
pub open spec fn reconcile_from(devices: Seq<Device>, from: int, mappings: Mappings) -> Step
    decreases devices.len() - from,
{
    if from >= devices.len() {
        after_reconciling(devices, mappings)
    } else {
        match devices[from].found(from as usize) {
            Some(device) if mappings.mac_uuid.contains_key(device.mac) => Step::Check(
                KnownTopic { devices, device, topic: mappings.mac_uuid[device.mac] },
            ),
            _ => reconcile_from(devices, from + 1, mappings),
        }
    }
}

/// Records the new devices from a position on that a listed light already stands for, up to the
/// first that none stands for. Gives the position of that device and the mappings so far.
pub open spec fn register_listed(
    lights: Seq<LightTopic>,
    new_devices: Seq<Found>,
    next: int,
    mappings: Mappings,
) -> (int, Mappings)
    decreases new_devices.len() - next,
{
    if next >= new_devices.len() {
        (next, mappings)
    } else {
        let device = new_devices[next];
        match topic_of_mac(lights, device.mac) {
            Some(topic) => register_listed(
                lights,
                new_devices,
                next + 1,
                mappings.record(device.index, device.mac, topic),
            ),
            None => (next, mappings),
        }
    }
}

/// A pass asks for a topic for the new device at a position, under a random identifier, or is
/// past the last new device.
pub open spec fn asks_to_create(
    step: Step,
    lights: Seq<LightTopic>,
    new_devices: Seq<Found>,
    next: int,
) -> bool {
    if next < new_devices.len() {
        &&& step matches Step::Create(registration)
        &&& registration.lights == lights
        &&& registration.new_devices == new_devices
        &&& registration.next == next
        &&& is_random_uuid(registration.topic)
    } else {
        step == (Step::Restart { buffer_size: EVENT_BUFFER_SIZE })
    }
}

/// A pass goes on with the new devices from a position on: it records those that a listed light
/// already stands for, and asks for a topic for the first that none stands for.
pub open spec fn goes_on(
    lights: Seq<LightTopic>,
    new_devices: Seq<Found>,
    from: int,
    before: Mappings,
    step: Step,
    after: Mappings,
) -> bool {
    let (next, mappings) = register_listed(lights, new_devices, from, before);
    &&& after == mappings
    &&& asks_to_create(step, lights, new_devices, next)
}

/// A step of a pass, with the mappings that it leaves, follows upon another.
pub open spec fn follows(step: Step, before: Mappings, next: Step, after: Mappings) -> bool {
    match step {
        Step::Check(known) => {
            &&& after == before
            &&& {
                ||| next == reconcile_from(known.devices, known.device.index + 1, before)
                ||| {
                    &&& next matches Step::Repair(repair)
                    &&& repair.devices == known.devices
                    &&& repair.device == known.device
                    &&& is_random_uuid(repair.topic)
                }
            }
        },
        Step::Repair(known) => {
            &&& after == before.record(known.device.index, known.device.mac, known.topic)
            &&& next == reconcile_from(known.devices, known.device.index + 1, after)
        },
        Step::List(new_devices) => exists|lights: Seq<LightTopic>|
            #[trigger] goes_on(lights, new_devices, 0, before, next, after),
        Step::Create(registration) => {
            ||| goes_on(
                registration.lights,
                registration.new_devices,
                registration.next + 1,
                before,
                next,
                after,
            )
            ||| goes_on(
                registration.lights,
                registration.new_devices,
                registration.next + 1,
                registration.record(before),
                next,
                after,
            )
        },
        Step::Restart { .. } => false,
        Step::Finish => false,
    }
}

/// A question: does the topic of a known device still exist?
pub struct TopicCheck {
    devices: Vec<Device>,
    device: NewDevice,
    topic_uuid: String,
    draws: Draws,
}

/// A request: the topic of a known device is gone, create another one.
pub struct TopicRepair {
    devices: Vec<Device>,
    device: NewDevice,
    topic_uuid: String,
    draws: Draws,
}

/// A question: which lights have topics, now that there are new devices?
pub struct LightListing {
    new_devices: Vec<NewDevice>,
    draws: Draws,
}

/// A request: create a topic for a new device.
pub struct TopicCreation {
    smart_lights: Vec<SmartLight>,
    new_devices: Vec<NewDevice>,
    next: usize,
    topic_uuid: String,
    draws: Draws,
}

/// A request: start the event receivers again. It is the last of a pass.
pub struct ReceiverRestart {
    buffer_size: usize,
}

/// What a pass asks for next.
pub enum PassStep {
    /// Find out whether a topic exists.
    Check(TopicCheck),
    /// Create a topic in place of one that is gone.
    Repair(TopicRepair),
    /// List the lights that have topics.
    List(LightListing),
    /// Create a topic for a new device.
    Create(TopicCreation),
    /// Start the event receivers again, for there are new devices.
    Restart(ReceiverRestart),
    /// Nothing: no device is new.
    Finish,
}

impl TopicCheck {
    #[verifier::type_invariant]
    spec fn within_scan(self) -> bool {
        self.device.index < self.devices.len()
    }
}

impl TopicRepair {
    #[verifier::type_invariant]
    spec fn within_scan(self) -> bool {
        self.device.index < self.devices.len()
    }
}

impl LightListing {
    #[verifier::type_invariant]
    spec fn can_be_counted(self) -> bool {
        forall|j: int|
            0 <= j < self.new_devices@.len() ==> (#[trigger] self.new_devices@[j]).index
                < usize::MAX
    }
}

impl TopicCreation {
    #[verifier::type_invariant]
    spec fn within_new_devices(self) -> bool {
        &&& self.next < self.new_devices.len()
        &&& forall|j: int|
            0 <= j < self.new_devices@.len() ==> (#[trigger] self.new_devices@[j]).index
                < usize::MAX
    }
}

impl TopicCheck {
    /// The identifiers drawn in the pass so far.
    pub closed spec fn draws(self) -> Seq<Seq<char>> {
        self.draws@
    }
}

impl View for TopicCheck {
    type V = KnownTopic;

    closed spec fn view(&self) -> KnownTopic {
        KnownTopic { devices: self.devices@, device: self.device@, topic: self.topic_uuid@ }
    }
}

impl TopicRepair {
    /// The identifiers drawn in the pass so far.
    pub closed spec fn draws(self) -> Seq<Seq<char>> {
        self.draws@
    }
}

impl View for TopicRepair {
    type V = KnownTopic;

    closed spec fn view(&self) -> KnownTopic {
        KnownTopic { devices: self.devices@, device: self.device@, topic: self.topic_uuid@ }
    }
}

impl LightListing {
    /// The identifiers drawn in the pass so far.
    pub closed spec fn draws(self) -> Seq<Seq<char>> {
        self.draws@
    }
}

impl View for LightListing {
    type V = Seq<Found>;

    closed spec fn view(&self) -> Seq<Found> {
        founds(self.new_devices@)
    }
}

impl TopicCreation {
    /// The identifiers drawn in the pass so far.
    pub closed spec fn draws(self) -> Seq<Seq<char>> {
        self.draws@
    }
}

impl View for TopicCreation {
    type V = Registration;

    closed spec fn view(&self) -> Registration {
        Registration {
            lights: lights_read(self.smart_lights@),
            new_devices: founds(self.new_devices@),
            next: self.next as int,
            topic: self.topic_uuid@,
        }
    }
}

impl ReceiverRestart {
    #[verifier::type_invariant]
    spec fn has_room(self) -> bool {
        self.buffer_size == EVENT_BUFFER_SIZE
    }
}

impl View for ReceiverRestart {
    type V = usize;

    closed spec fn view(&self) -> usize {
        self.buffer_size
    }
}

impl View for PassStep {
    type V = Step;

    open spec fn view(&self) -> Step {
        match self {
            PassStep::Check(check) => Step::Check(check@),
            PassStep::Repair(repair) => Step::Repair(repair@),
            PassStep::List(listing) => Step::List(listing@),
            PassStep::Create(creation) => Step::Create(creation@),
            PassStep::Restart(restart) => Step::Restart { buffer_size: restart@ },
            PassStep::Finish => Step::Finish,
        }
    }
}

impl PassStep {
    /// The identifiers drawn in the pass so far, as long as the pass can draw another one.
    pub open spec fn draws(self) -> Option<Seq<Seq<char>>> {
        match self {
            PassStep::Check(check) => Some(check.draws()),
            PassStep::Repair(repair) => Some(repair.draws()),
            PassStep::List(listing) => Some(listing.draws()),
            PassStep::Create(creation) => Some(creation.draws()),
            PassStep::Restart(_) => None,
            PassStep::Finish => None,
        }
    }
}

/// The identifier of the topic that a step asks to be created, if it asks for one.
pub open spec fn requested(step: Step) -> Option<Seq<char>> {
    match step {
        Step::Repair(known) => Some(known.topic),
        Step::Create(registration) => Some(registration.topic),
        _ => None,
    }
}

/// Between a step and the next, an identifier is drawn if and only if the next step asks for a topic
/// to be created. It is drawn for that topic alone.
pub open spec fn one_draw_each(before: Seq<Seq<char>>, next: Step, after: Seq<Seq<char>>) -> bool {
    after == match requested(next) {
        Some(topic) => before.push(topic),
        None => before,
    }
}

/// The identifiers drawn up to a step, if these have been drawn before.
pub open spec fn draws_for(before: Seq<Seq<char>>, next: PassStep) -> bool {
    next.draws() matches Some(after) ==> one_draw_each(before, next@, after)
}

/// Looks for new devices once the topics of known devices have been seen to.
fn look_for_new_devices(
    devices: &Vec<Device>,
    state: &SharedState,
    draws: Draws,
) -> (step: PassStep)
    ensures
        step@ == after_reconciling(devices@, state@),
        draws_for(draws@, step),
{
    let existing_macs = state.existing_macs();
    let new_devices = find_new_devices(devices, &existing_macs);
    if new_devices.len() == 0 {
        return PassStep::Finish;
    }
    proof {
        let count: usize = devices.len();
        law_new_devices_keep_order(devices@, existing_macs@);
        assert forall|j: int| 0 <= j < new_devices@.len() implies (
        #[trigger] new_devices@[j]).index < usize::MAX by {
            assert(founds(new_devices@)[j] == new_devices@[j]@);
        }
    }
    PassStep::List(LightListing { new_devices, draws })
}

/// Goes on with the known devices of a scan from a position on, then with the new ones, where some
/// identifiers have been drawn before.
fn reconcile_further(
    devices: Vec<Device>,
    from: usize,
    state: &SharedState,
    draws: Draws,
) -> (step: PassStep)
    ensures
        step@ == reconcile_from(devices@, from as int, state@),
        draws_for(draws@, step),
{
    let mut index: usize = from;
    while index < devices.len()
        invariant
            reconcile_from(devices@, from as int, state@) == reconcile_from(
                devices@,
                index as int,
                state@,
            ),
        decreases devices.len() - index,
    {
        if let Some(device) = NewDevice::from_device(index, &devices[index]) {
            if let Some(topic_uuid) = state.get_topic_uuid(device.mac.as_str()) {
                return PassStep::Check(TopicCheck { devices, device, topic_uuid, draws });
            }
        }
        index = index + 1;
    }
    look_for_new_devices(&devices, state, draws)
}

/// Goes on with the known devices of a scan from a position on, then with the new ones. Devices
/// that cannot be used are passed over, and so are those whose address has no topic yet.
pub fn reconcile_existing_devices(
    devices: Vec<Device>,
    from: usize,
    state: &SharedState,
) -> (step: PassStep)
    ensures
        step@ == reconcile_from(devices@, from as int, state@),
        draws_for(Seq::empty(), step),
{
    reconcile_further(devices, from, state, Draws::none())
}

/// Starts a pass over the devices of a scan.
pub fn process_new_devices(devices: Vec<Device>, state: &SharedState) -> (step: PassStep)
    ensures
        step@ == reconcile_from(devices@, 0, state@),
        draws_for(Seq::empty(), step),
{
    reconcile_existing_devices(devices, 0, state)
}

impl TopicCheck {
    /// The topic asked for.
    pub fn topic_uuid(&self) -> (topic_uuid: &String)
        ensures
            topic_uuid@ == self@.topic,
    {
        &self.topic_uuid
    }

    /// The device that the topic stands for.
    pub fn device(&self) -> (device: &NewDevice)
        ensures
            device@ == self@.device,
    {
        &self.device
    }

    /// The address under which the topic is read.
    pub fn url(&self) -> (url: String)
        ensures
            url@ == topic_address(self@.topic),
    {
        topic_url(self.topic_uuid.as_str())
    }

    /// Goes on if the topic exists.
    pub fn keep(self, state: &SharedState) -> (step: PassStep)
        ensures
            step@ == reconcile_from(self@.devices, self@.device.index + 1, state@),
            draws_for(self.draws(), step),
    {
        proof {
            use_type_invariant(&self);
        }
        let from: usize = self.device.index + 1;
        reconcile_further(self.devices, from, state, self.draws)
    }

    /// Goes on if the topic is gone and another one is to take its place.
    pub fn replace(self, topic_uuid: String) -> (step: PassStep)
        ensures
            step@ == Step::Repair(
                KnownTopic {
                    devices: self@.devices,
                    device: self@.device,
                    topic: topic_uuid@,
                },
            ),
            step.draws() == Some(self.draws()),
    {
        proof {
            use_type_invariant(&self);
        }
        PassStep::Repair(
            TopicRepair {
                devices: self.devices,
                device: self.device,
                topic_uuid,
                draws: self.draws,
            },
        )
    }

    /// Goes on with the answer. Where the topic is gone, another one with a random identifier is to
    /// take its place.
    pub fn answered(self, exists: bool, state: &SharedState) -> (step: PassStep)
        ensures
            exists ==> step@ == reconcile_from(self@.devices, self@.device.index + 1, state@),
            !exists ==> {
                &&& step@ matches Step::Repair(repair)
                &&& repair.devices == self@.devices
                &&& repair.device == self@.device
                &&& is_random_uuid(repair.topic)
            },
            follows(Step::Check(self@), state@, step@, state@),
            draws_for(self.draws(), step),
            !exists ==> {
                &&& step matches PassStep::Repair(repair)
                &&& repair.draws() == self.draws().push(repair@.topic)
            },
    {
        proof {
            use_type_invariant(&self);
        }
        if exists {
            self.keep(state)
        } else {
            let mut draws = self.draws;
            let topic_uuid = fresh_topic_uuid(&mut draws);
            PassStep::Repair(
                TopicRepair { devices: self.devices, device: self.device, topic_uuid, draws },
            )
        }
    }
}

impl TopicRepair {
    /// The topic to create.
    pub fn topic_uuid(&self) -> (topic_uuid: &String)
        ensures
            topic_uuid@ == self@.topic,
    {
        &self.topic_uuid
    }

    /// What is written to create the topic, with the light placed in the given room.
    pub fn post(&self, area_name: String) -> (post: TopicPost)
        ensures
            post.url@ == topic_address(self@.topic),
            json_tree(post.payload) == Json::Object(
                new_light_members(
                    self@.device.index as nat,
                    self@.device.mac,
                    self@.device.ip,
                    area_name@,
                ),
            ),
    {
        proof {
            use_type_invariant(&*self);
        }
        create_smart_light_topic(
            self.device.index,
            self.topic_uuid.as_str(),
            self.device.mac.as_str(),
            self.device.ip.clone(),
            area_name,
        )
    }

    /// What is written to create the topic once the room has been found. A room that cannot be had
    /// gives the error, and nothing is to be written.
    pub fn room_found<E>(&self, room: Result<String, E>) -> (post: Result<TopicPost, E>)
        ensures
            match room {
                Ok(area_name) => {
                    &&& post matches Ok(post)
                    &&& post.url@ == topic_address(self@.topic)
                    &&& json_tree(post.payload) == Json::Object(
                        new_light_members(
                            self@.device.index as nat,
                            self@.device.mac,
                            self@.device.ip,
                            area_name@,
                        ),
                    )
                },
                Err(error) => post == Err::<TopicPost, E>(error),
            },
    {
        match room {
            Ok(area_name) => Ok(self.post(area_name)),
            Err(error) => Err(error),
        }
    }

    /// Goes on with the answer. A topic that has been created is recorded; one that has not ends
    /// the pass with the error, and nothing is recorded.
    pub fn answered<E>(
        self,
        created: Result<(), E>,
        state: &mut SharedState,
    ) -> (step: Result<PassStep, E>)
        ensures
            match created {
                Ok(_) => {
                    &&& final(state)@ == old(state)@.record(
                        self@.device.index,
                        self@.device.mac,
                        self@.topic,
                    )
                    &&& step matches Ok(step)
                    &&& step@ == reconcile_from(
                        self@.devices,
                        self@.device.index + 1,
                        final(state)@,
                    )
                    &&& follows(Step::Repair(self@), old(state)@, step@, final(state)@)
                    &&& draws_for(self.draws(), step)
                },
                Err(error) => {
                    &&& final(state)@ == old(state)@
                    &&& step == Err::<PassStep, E>(error)
                },
            },
    {
        proof {
            use_type_invariant(&self);
        }
        match created {
            Ok(_) => {
                let from: usize = self.device.index + 1;
                state.update_mappings(self.device.index, self.device.mac, self.topic_uuid);
                Ok(reconcile_further(self.devices, from, state, self.draws))
            },
            Err(error) => Err(error),
        }
    }
}

/// The topic that a new device gets.
pub enum TopicChoice {
    /// A topic that a listed light already has.
    Listed(String),
    /// A topic that is to be created.
    Created(String),
}

/// Chooses the topic of a new device: that of the first listed light with its address, else one
/// with a random identifier that is to be created.
pub fn get_or_create_topic_uuid(new_device: &NewDevice, smart_lights: &Vec<SmartLight>) -> (choice:
    TopicChoice)
    ensures
        match topic_of_mac(lights_read(smart_lights@), new_device@.mac) {
            Some(topic) => choice matches TopicChoice::Listed(uuid) && uuid@ == topic,
            None => choice matches TopicChoice::Created(uuid) && is_random_uuid(uuid@),
        },
{
    let mut draws = Draws::none();
    choose_topic(new_device, smart_lights, &mut draws)
}

/// Chooses the topic of a new device, and draws the identifier of one that is to be created.
fn choose_topic(
    new_device: &NewDevice,
    smart_lights: &Vec<SmartLight>,
    draws: &mut Draws,
) -> (choice: TopicChoice)
    ensures
        match topic_of_mac(lights_read(smart_lights@), new_device@.mac) {
            Some(topic) => {
                &&& choice matches TopicChoice::Listed(uuid)
                &&& uuid@ == topic
                &&& final(draws)@ == old(draws)@
            },
            None => {
                &&& choice matches TopicChoice::Created(uuid)
                &&& is_random_uuid(uuid@)
                &&& final(draws)@ == old(draws)@.push(uuid@)
            },
        },
{
    match find_topic(smart_lights, &new_device.mac) {
        Some(topic_uuid) => TopicChoice::Listed(topic_uuid),
        None => TopicChoice::Created(fresh_topic_uuid(draws)),
    }
}

/// Gives topics to the new devices from a position on, up to the first for which a topic has to
/// be created.
fn register(
    smart_lights: Vec<SmartLight>,
    new_devices: Vec<NewDevice>,
    from: usize,
    state: &mut SharedState,
    drawn: Draws,
) -> (step: PassStep)
    requires
        from <= new_devices@.len(),
        forall|j: int|
            0 <= j < new_devices@.len() ==> (#[trigger] new_devices@[j]).index < usize::MAX,
    ensures
        goes_on(
            lights_read(smart_lights@),
            founds(new_devices@),
            from as int,
            old(state)@,
            step@,
            final(state)@,
        ),
        draws_for(drawn@, step),
{
    let mut draws = drawn;
    let mut next: usize = from;
    while next < new_devices.len()
        invariant
            next <= new_devices@.len(),
            draws@ == drawn@,
            forall|j: int|
                0 <= j < new_devices@.len() ==> (#[trigger] new_devices@[j]).index < usize::MAX,
            register_listed(
                lights_read(smart_lights@),
                founds(new_devices@),
                from as int,
                old(state)@,
            ) == register_listed(
                lights_read(smart_lights@),
                founds(new_devices@),
                next as int,
                state@,
            ),
        decreases new_devices.len() - next,
    {
        assert(founds(new_devices@)[next as int] == new_devices@[next as int]@);
        match choose_topic(&new_devices[next], &smart_lights, &mut draws) {
            TopicChoice::Listed(topic_uuid) => {
                let mac = new_devices[next].mac.clone();
                state.update_mappings(new_devices[next].index, mac, topic_uuid);
            },
            TopicChoice::Created(topic_uuid) => {
                return PassStep::Create(
                    TopicCreation { smart_lights, new_devices, next, topic_uuid, draws },
                );
            },
        }
        next = next + 1;
    }
    PassStep::Restart(ReceiverRestart { buffer_size: EVENT_BUFFER_SIZE })
}

impl LightListing {
    /// The devices that are new.
    pub fn new_devices(&self) -> (new_devices: &Vec<NewDevice>)
        ensures
            founds(new_devices@) == self@,
    {
        &self.new_devices
    }

    /// Goes on with the answer. A list that could not be had ends the pass with the error.
    pub fn answered<E>(
        self,
        smart_lights: Result<Vec<SmartLight>, E>,
        state: &mut SharedState,
    ) -> (step: Result<PassStep, E>)
        ensures
            match smart_lights {
                Ok(smart_lights) => {
                    &&& step matches Ok(step)
                    &&& goes_on(
                        lights_read(smart_lights@),
                        self@,
                        0,
                        old(state)@,
                        step@,
                        final(state)@,
                    )
                    &&& follows(Step::List(self@), old(state)@, step@, final(state)@)
                    &&& draws_for(self.draws(), step)
                    &&& step matches PassStep::Create(creation) ==> creation.draws()
                        == self.draws().push(creation@.topic)
                },
                Err(error) => {
                    &&& final(state)@ == old(state)@
                    &&& step == Err::<PassStep, E>(error)
                },
            },
    {
        proof {
            use_type_invariant(&self);
        }
        match smart_lights {
            Ok(smart_lights) => {
                let ghost lights = lights_read(smart_lights@);
                let step = register(smart_lights, self.new_devices, 0, state, self.draws);
                let ghost asked = Step::List(self@);
                assert(goes_on(lights, asked->List_0, 0, old(state)@, step@, state@));
                Ok(step)
            },
            Err(error) => Err(error),
        }
    }
}

impl TopicCreation {
    /// The topic to create.
    pub fn topic_uuid(&self) -> (topic_uuid: &String)
        ensures
            topic_uuid@ == self@.topic,
    {
        &self.topic_uuid
    }

    /// The device that the topic is for.
    pub fn device(&self) -> (device: &NewDevice)
        ensures
            device@ == self@.device(),
    {
        proof {
            use_type_invariant(&*self);
        }
        &self.new_devices[self.next]
    }

    /// What is written to create the topic, with the light placed in the given room.
    pub fn post(&self, area_name: String) -> (post: TopicPost)
        ensures
            post.url@ == topic_address(self@.topic),
            json_tree(post.payload) == Json::Object(
                new_light_members(
                    self@.device().index as nat,
                    self@.device().mac,
                    self@.device().ip,
                    area_name@,
                ),
            ),
    {
        proof {
            use_type_invariant(&*self);
        }
        let device = &self.new_devices[self.next];
        create_smart_light_topic(
            device.index,
            self.topic_uuid.as_str(),
            device.mac.as_str(),
            device.ip.clone(),
            area_name,
        )
    }

    /// What is written to create the topic once the room has been found. A room that cannot be had
    /// gives the error, and nothing is to be written.
    pub fn room_found<E>(&self, room: Result<String, E>) -> (post: Result<TopicPost, E>)
        ensures
            match room {
                Ok(area_name) => {
                    &&& post matches Ok(post)
                    &&& post.url@ == topic_address(self@.topic)
                    &&& json_tree(post.payload) == Json::Object(
                        new_light_members(
                            self@.device().index as nat,
                            self@.device().mac,
                            self@.device().ip,
                            area_name@,
                        ),
                    )
                },
                Err(error) => post == Err::<TopicPost, E>(error),
            },
    {
        match room {
            Ok(area_name) => Ok(self.post(area_name)),
            Err(error) => Err(error),
        }
    }

    /// Goes on with the answer. A topic that has been created is recorded; a device whose topic
    /// could not be created is passed over.
    pub fn answered(self, created: bool, state: &mut SharedState) -> (step: PassStep)
        ensures
            goes_on(
                self@.lights,
                self@.new_devices,
                self@.next + 1,
                if created {
                    self@.record(old(state)@)
                } else {
                    old(state)@
                },
                step@,
                final(state)@,
            ),
            follows(Step::Create(self@), old(state)@, step@, final(state)@),
            draws_for(self.draws(), step),
            step matches PassStep::Create(creation) ==> creation.draws() == self.draws().push(
                creation@.topic,
            ),
    {
        proof {
            use_type_invariant(&self);
        }
        let from: usize = self.next + 1;
        if created {
            let index: usize = self.new_devices[self.next].index;
            let mac = self.new_devices[self.next].mac.clone();
            state.update_mappings(index, mac, self.topic_uuid);
        }
        register(self.smart_lights, self.new_devices, from, state, self.draws)
    }
}

impl ReceiverRestart {
    /// The number of messages that the receivers hold back.
    pub fn buffer_size(&self) -> (buffer_size: usize)
        ensures
            buffer_size == self@,
            buffer_size == EVENT_BUFFER_SIZE,
    {
        proof {
            use_type_invariant(&*self);
        }
        self.buffer_size
    }

    /// The receiver that messages come from after the restart: the new one, or none if the
    /// receivers could not be started. One from before is given up either way.
    pub fn receiver_after<R, E>(self, started: Result<R, E>) -> (receiver: Option<R>)
        ensures
            receiver == (match started {
                Ok(receiver) => Some(receiver),
                Err(_) => None,
            }),
    {
        match started {
            Ok(receiver) => Some(receiver),
            Err(_) => None,
        }
    }
}

} // verus!
