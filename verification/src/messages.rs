//! The loop that waits for messages of devices: what it does next, and what holds of its runs.

use crate::events::EventPayload;
use crate::lights::{update_smart_light_topic, LightUpdate, SmartLight};
use crate::state::{Mappings, SharedState};
use crate::topics::{topic_address, topic_url};
use vstd::prelude::*;

verus! {

/// The number of seconds to wait for event receivers to be started.
pub const RECEIVER_INTERVAL: u64 = 1;

/// What is done with what has been received.
pub enum Route {
    /// There is no receiver, or it is closed: wait for this many seconds.
    Wait { seconds: u64 },
    /// The device has no topic: pass the message over.
    Skip,
    /// Bring the topic of the device up to date.
    Update { topic_uuid: String, mac: String },
}

/// What is to be done with the message of a device: the topic to bring up to date, and the address
/// to write there.
pub open spec fn update_due(
    mappings: Mappings,
    device_id: usize,
) -> Option<(Seq<char>, Seq<char>)> {
    match (mappings.topic(device_id), mappings.mac(device_id)) {
        (Some(topic), Some(mac)) => Some((topic, mac)),
        _ => None,
    }
}

/// Decides what to do with what has been received.
pub fn route_event(state: &SharedState, event: Option<&EventPayload>) -> (route: Route)
    ensures
        match event {
            None => route == (Route::Wait { seconds: RECEIVER_INTERVAL }),
            Some(event) => match update_due(state@, event.device_id) {
                None => route == Route::Skip,
                Some((topic, address)) => route matches Route::Update { topic_uuid, mac }
                    && topic_uuid@ == topic && mac@ == address,
            },
        },
{
    let event = match event {
        Some(event) => event,
        None => {
            return Route::Wait { seconds: RECEIVER_INTERVAL };
        },
    };
    let topic_uuid = match state.get_topic_uuid_for_device(event.device_id) {
        Some(topic_uuid) => topic_uuid,
        None => {
            return Route::Skip;
        },
    };
    match state.get_mac(event.device_id) {
        Some(mac) => Route::Update { topic_uuid, mac },
        None => Route::Skip,
    }
}

/// A message of a device is passed over only if the device has no topic. Otherwise it goes to the
/// topic of the address that is written there.
pub proof fn law_message_goes_to_the_topic_of_its_address(mappings: Mappings, device_id: usize)
    ensures
        update_due(mappings, device_id) is None <==> mappings.topic(device_id) is None,
        update_due(mappings, device_id) matches Some((topic, mac)) ==> {
            &&& mappings.mac(device_id) == Some(mac)
            &&& mappings.uuid(mac) == Some(topic)
        },
{
}

/// Once a device is recorded, its messages go to the recorded topic with the recorded address.
pub proof fn law_recorded_device_is_heard(
    mappings: Mappings,
    device_id: usize,
    mac: Seq<char>,
    topic: Seq<char>,
)
    ensures
        update_due(mappings.record(device_id, mac, topic), device_id) == Some((topic, mac)),
{
}

/// What wakes the message loop.
pub enum Wake {
    /// It has been cancelled.
    Cancelled,
    /// It has received a message, or nothing, because there is no receiver or it is closed.
    Received(Option<EventPayload>),
}

/// What the message loop does once it is woken.
pub enum MessageAction {
    /// It ends.
    Stop,
    /// It waits for this many seconds.
    Wait(u64),
    /// It passes over the message of this device.
    Skip(usize),
    /// It brings a topic up to date with a message, and writes the address there.
    Update { topic: Seq<char>, mac: Seq<char>, event: EventPayload },
}

/// What the message loop does when it is woken.
pub open spec fn action_for(mappings: Mappings, wake: Wake) -> MessageAction {
    match wake {
        Wake::Cancelled => MessageAction::Stop,
        Wake::Received(None) => MessageAction::Wait(RECEIVER_INTERVAL),
        Wake::Received(Some(event)) => match update_due(mappings, event.device_id) {
            Some((topic, mac)) => MessageAction::Update { topic, mac, event },
            None => MessageAction::Skip(event.device_id),
        },
    }
}

/// A loop has stopped: its last action does it, and no other one.
pub open spec fn stops_last(actions: Seq<MessageAction>) -> bool {
    &&& actions.len() > 0
    &&& actions.last() == MessageAction::Stop
    &&& !actions.drop_last().contains(MessageAction::Stop)
}

/// The message loop while it waits to be woken. Contracts see it as what it has done.
pub struct MessageLoop {
    actions: Ghost<Seq<MessageAction>>,
}

/// The message loop while a topic is brought up to date. No other message is received before that
/// is over.
pub struct TopicUpdate {
    topic_uuid: String,
    mac: String,
    event: EventPayload,
    actions: Ghost<Seq<MessageAction>>,
}

/// The message loop at its end. Nothing follows.
pub struct MessagesEnded {
    actions: Ghost<Seq<MessageAction>>,
}

/// What the message loop does next.
pub enum EventStep {
    /// It was cancelled: it ends.
    Stop(MessagesEnded),
    /// There is no receiver, or it is closed: wait for this many seconds and go on.
    Wait { seconds: u64, messages: MessageLoop },
    /// The device has no topic: go on.
    Skip { device_id: usize, messages: MessageLoop },
    /// Bring the topic of a device up to date.
    Update(TopicUpdate),
}

impl View for MessageLoop {
    type V = Seq<MessageAction>;

    closed spec fn view(&self) -> Seq<MessageAction> {
        self.actions@
    }
}

impl View for MessagesEnded {
    type V = Seq<MessageAction>;

    closed spec fn view(&self) -> Seq<MessageAction> {
        self.actions@
    }
}

impl View for TopicUpdate {
    type V = Seq<MessageAction>;

    closed spec fn view(&self) -> Seq<MessageAction> {
        self.actions@
    }
}

impl View for EventStep {
    type V = Seq<MessageAction>;

    open spec fn view(&self) -> Seq<MessageAction> {
        match self {
            EventStep::Stop(ended) => ended@,
            EventStep::Wait { messages, .. } => messages@,
            EventStep::Skip { messages, .. } => messages@,
            EventStep::Update(update) => update@,
        }
    }
}

impl EventStep {
    /// What the step does.
    pub open spec fn action(self) -> MessageAction {
        match self {
            EventStep::Stop(_) => MessageAction::Stop,
            EventStep::Wait { seconds, .. } => MessageAction::Wait(seconds),
            EventStep::Skip { device_id, .. } => MessageAction::Skip(device_id),
            EventStep::Update(update) => update.action(),
        }
    }
}

proof fn lemma_no_stop(actions: Seq<MessageAction>, action: MessageAction)
    requires
        !actions.contains(MessageAction::Stop),
        action != MessageAction::Stop,
    ensures
        !actions.push(action).contains(MessageAction::Stop),
{
    assert forall|i: int| 0 <= i < actions.push(action).len() implies actions.push(action)[i]
        != MessageAction::Stop by {
        if i < actions.len() {
            assert(actions.push(action)[i] == actions[i]);
        }
    }
}

impl MessageLoop {
    #[verifier::type_invariant]
    spec fn goes_on(self) -> bool {
        !self.actions@.contains(MessageAction::Stop)
    }

    /// Starts with nothing done.
    pub fn new() -> (messages: MessageLoop)
        ensures
            messages@ == Seq::<MessageAction>::empty(),
    {
        MessageLoop { actions: Ghost(Seq::empty()) }
    }

    /// Goes on when it is woken. It ends if and only if it has been cancelled.
    pub fn woken(self, wake: Wake, state: &SharedState) -> (step: EventStep)
        ensures
            step.action() == action_for(state@, wake),
            step@ == self@.push(action_for(state@, wake)),
            step is Stop <==> wake is Cancelled,
            step is Wait <==> wake == Wake::Received(None),
            step matches EventStep::Wait { seconds, .. } ==> seconds == 1,
            step matches EventStep::Skip { device_id, .. } ==> (wake matches Wake::Received(
                Some(event),
            ) && device_id == event.device_id && state@.topic(device_id) is None),
            step matches EventStep::Update(update) ==> {
                &&& wake matches Wake::Received(Some(event))
                &&& update.message() == event
                &&& state@.mac(event.device_id) == Some(update.address())
                &&& state@.uuid(update.address()) == Some(update.topic())
            },
            step is Stop ==> stops_last(step@),
    {
        proof {
            use_type_invariant(&self);
        }
        let ghost action = action_for(state@, wake);
        let ghost actions = self@.push(action);
        assert(actions.drop_last() == self@);
        proof {
            if !(wake is Cancelled) {
                lemma_no_stop(self@, action);
            }
        }
        match wake {
            Wake::Cancelled => EventStep::Stop(MessagesEnded { actions: Ghost(actions) }),
            Wake::Received(event) => match (route_event(state, event.as_ref()), event) {
                (Route::Update { topic_uuid, mac }, Some(event)) => EventStep::Update(
                    TopicUpdate { topic_uuid, mac, event, actions: Ghost(actions) },
                ),
                (_, Some(event)) => EventStep::Skip {
                    device_id: event.device_id,
                    messages: MessageLoop { actions: Ghost(actions) },
                },
                (_, None) => EventStep::Wait {
                    seconds: RECEIVER_INTERVAL,
                    messages: MessageLoop { actions: Ghost(actions) },
                },
            },
        }
    }
}

impl TopicUpdate {
    #[verifier::type_invariant]
    spec fn goes_on(self) -> bool {
        !self.actions@.contains(MessageAction::Stop)
    }

    /// The topic that is brought up to date.
    pub closed spec fn topic(self) -> Seq<char> {
        self.topic_uuid@
    }

    /// The address that is written to the topic.
    pub closed spec fn address(self) -> Seq<char> {
        self.mac@
    }

    /// The message that brings news of the device.
    pub closed spec fn message(self) -> EventPayload {
        self.event
    }

    /// The update as an action of the loop.
    pub open spec fn action(self) -> MessageAction {
        MessageAction::Update { topic: self.topic(), mac: self.address(), event: self.message() }
    }

    /// The topic to bring up to date.
    pub fn topic_uuid(&self) -> (topic_uuid: &String)
        ensures
            topic_uuid@ == self.topic(),
    {
        &self.topic_uuid
    }

    /// The message that brings news of the device.
    pub fn event(&self) -> (event: &EventPayload)
        ensures
            *event == self.message(),
    {
        &self.event
    }

    /// The address under which the topic is read.
    pub fn url(&self) -> (url: String)
        ensures
            url@ == topic_address(self.topic()),
    {
        topic_url(self.topic_uuid.as_str())
    }

    /// What is written to the topic, by what it says at present.
    pub fn revise(&self, current: &SmartLight) -> (update: LightUpdate)
        ensures
            update.url@ == topic_address(self.topic()),
            update.value@ == current@.value.after(self.address(), self.message().events),
    {
        update_smart_light_topic(
            current,
            self.topic_uuid.as_str(),
            self.mac.as_str(),
            &self.event,
        )
    }

    /// What is written to the topic once it has been fetched. A topic that cannot be fetched gives
    /// the error, and nothing is to be written.
    pub fn fetched<E>(&self, fetched: Result<SmartLight, E>) -> (update: Result<LightUpdate, E>)
        ensures
            match fetched {
                Ok(current) => {
                    &&& update matches Ok(update)
                    &&& update.url@ == topic_address(self.topic())
                    &&& update.value@ == current@.value.after(
                        self.address(),
                        self.message().events,
                    )
                },
                Err(error) => update == Err::<LightUpdate, E>(error),
            },
    {
        match fetched {
            Ok(current) => Ok(self.revise(&current)),
            Err(error) => Err(error),
        }
    }

    /// Goes on after the update, whether it went well or not.
    pub fn updated<E>(self, _outcome: &Result<(), E>) -> (messages: MessageLoop)
        ensures
            messages@ == self@,
    {
        proof {
            use_type_invariant(&self);
        }
        MessageLoop { actions: self.actions }
    }
}

/// What one turn of the message loop meets: the mappings at the time, what wakes it, and whether
/// an update succeeds.
pub struct MessageTurn {
    pub mappings: Mappings,
    pub wake: Wake,
    pub updated: bool,
}

/// The actions of a run of the message loop over some turns. Turns after its end count for nothing.
pub open spec fn message_run(turns: Seq<MessageTurn>) -> Seq<MessageAction>
    decreases turns.len(),
{
    if turns.len() == 0 {
        Seq::empty()
    } else {
        let before = message_run(turns.drop_last());
        if before.contains(MessageAction::Stop) {
            before
        } else {
            before.push(action_for(turns.last().mappings, turns.last().wake))
        }
    }
}

/// Whether the message loop has ended after some turns.
pub open spec fn messages_ended(turns: Seq<MessageTurn>) -> bool {
    message_run(turns).contains(MessageAction::Stop)
}

/// A turn adds its action to those of a run that has not ended.
pub proof fn law_message_run_turn_by_turn(turns: Seq<MessageTurn>, turn: MessageTurn)
    ensures
        message_run(Seq::<MessageTurn>::empty()) == Seq::<MessageAction>::empty(),
        message_run(turns.push(turn)) == (if messages_ended(turns) {
            message_run(turns)
        } else {
            message_run(turns).push(action_for(turn.mappings, turn.wake))
        }),
{
    assert(turns.push(turn).drop_last() =~= turns);
}

/// The message loop ends if and only if it is cancelled: neither a receiver that is missing or
/// closed, nor any message, nor an update that fails ends it. Its end is the last of its actions.
pub proof fn law_messages_end_only_when_cancelled(turns: Seq<MessageTurn>)
    ensures
        messages_ended(turns) <==> exists|i: int|
            0 <= i < turns.len() && (#[trigger] turns[i]).wake is Cancelled,
        messages_ended(turns) ==> stops_last(message_run(turns)),
    decreases turns.len(),
{
    if turns.len() > 0 {
        let earlier = turns.drop_last();
        let before = message_run(earlier);
        let after = message_run(turns);
        law_messages_end_only_when_cancelled(earlier);
        if messages_ended(earlier) {
            let i = choose|i: int|
                0 <= i < earlier.len() && (#[trigger] earlier[i]).wake is Cancelled;
            assert(turns[i].wake is Cancelled);
        } else {
            let action = action_for(turns.last().mappings, turns.last().wake);
            assert forall|i: int| 0 <= i < turns.len() - 1 implies !((
            #[trigger] turns[i]).wake is Cancelled) by {
                assert(earlier[i] == turns[i]);
            }
            if turns.last().wake is Cancelled {
                assert(turns[turns.len() - 1].wake is Cancelled);
                assert(after[before.len() as int] == MessageAction::Stop);
                assert(after.drop_last() =~= before);
            } else {
                lemma_no_stop(before, action);
            }
        }
    }
}

/// As long as the message loop is not cancelled it does one thing in each turn, in the order of the
/// turns. A message of a device that has a topic then leads to one update, of that topic with that
/// message and the address of the device.
pub proof fn law_each_message_is_handled_in_turn(turns: Seq<MessageTurn>)
    requires
        forall|i: int| 0 <= i < turns.len() ==> !((#[trigger] turns[i]).wake is Cancelled),
    ensures
        message_run(turns).len() == turns.len(),
        forall|k: int|
            0 <= k < turns.len() ==> #[trigger] message_run(turns)[k] == action_for(
                turns[k].mappings,
                turns[k].wake,
            ),
        forall|k: int|
            0 <= k < turns.len() ==> (turns[k].wake matches Wake::Received(Some(event)) ==> (
            turns[k].mappings.mac(event.device_id) matches Some(mac) ==> (
            turns[k].mappings.uuid(mac) matches Some(topic) ==> #[trigger] message_run(turns)[k] == (
            MessageAction::Update { topic, mac, event })))),
    decreases turns.len(),
{
    if turns.len() > 0 {
        let earlier = turns.drop_last();
        assert forall|i: int| 0 <= i < earlier.len() implies !((
        #[trigger] earlier[i]).wake is Cancelled) by {
            assert(earlier[i] == turns[i]);
        }
        law_each_message_is_handled_in_turn(earlier);
        law_messages_end_only_when_cancelled(earlier);
        assert forall|k: int| 0 <= k < turns.len() implies #[trigger] message_run(turns)[k]
            == action_for(turns[k].mappings, turns[k].wake) by {
            if k < earlier.len() {
                assert(message_run(turns)[k] == message_run(earlier)[k]);
                assert(earlier[k] == turns[k]);
            }
        }
    }
}

/// The updates among some actions.
pub open spec fn updates(actions: Seq<MessageAction>) -> Seq<MessageAction>
    decreases actions.len(),
{
    if actions.len() == 0 {
        Seq::empty()
    } else if actions.last() is Update {
        updates(actions.drop_last()).push(actions.last())
    } else {
        updates(actions.drop_last())
    }
}

/// The updates due for what has been received, one for each message of a device that has a topic.
pub open spec fn updates_due(
    mappings: Mappings,
    received: Seq<Option<EventPayload>>,
) -> Seq<MessageAction>
    decreases received.len(),
{
    if received.len() == 0 {
        Seq::empty()
    } else {
        let before = updates_due(mappings, received.drop_last());
        match received.last() {
            Some(event) => match update_due(mappings, event.device_id) {
                Some((topic, mac)) => before.push(MessageAction::Update { topic, mac, event }),
                None => before,
            },
            None => before,
        }
    }
}

/// With mappings that stay, the updates of a run are those due for what it receives: as many, and
/// in the order of receipt.
pub proof fn law_updates_follow_the_order_of_receipt(
    mappings: Mappings,
    received: Seq<Option<EventPayload>>,
    turns: Seq<MessageTurn>,
)
    requires
        turns.len() == received.len(),
        forall|i: int|
            0 <= i < turns.len() ==> (#[trigger] turns[i]).mappings == mappings && turns[i].wake
                == Wake::Received(received[i]),
    ensures
        updates(message_run(turns)) == updates_due(mappings, received),
    decreases turns.len(),
{
    if turns.len() > 0 {
        let earlier = turns.drop_last();
        assert forall|i: int| 0 <= i < earlier.len() implies (
        #[trigger] earlier[i]).mappings == mappings && earlier[i].wake == Wake::Received(
            received.drop_last()[i],
        ) by {
            assert(earlier[i] == turns[i]);
        }
        law_updates_follow_the_order_of_receipt(mappings, received.drop_last(), earlier);
        law_messages_end_only_when_cancelled(earlier);
        assert(message_run(turns).drop_last() =~= message_run(earlier));
        assert(turns.last() == turns[turns.len() - 1]);
    }
}

/// What the loop does is fixed by what wakes it: it stops when cancelled, waits a second when there
/// is nothing, passes over the message of a device without a topic, and otherwise brings the topic
/// of the address of the device up to date with that message.
pub proof fn law_what_wakes_the_loop_fixes_what_it_does(mappings: Mappings, event: EventPayload)
    ensures
        action_for(mappings, Wake::Cancelled) == MessageAction::Stop,
        action_for(mappings, Wake::Received(None)) == MessageAction::Wait(1),
        mappings.mac(event.device_id) is None ==> action_for(
            mappings,
            Wake::Received(Some(event)),
        ) == MessageAction::Skip(event.device_id),
        mappings.mac(event.device_id) matches Some(mac) ==> {
            &&& mappings.uuid(mac) is None ==> action_for(mappings, Wake::Received(Some(event)))
                == MessageAction::Skip(event.device_id)
            &&& mappings.uuid(mac) matches Some(topic) ==> action_for(
                mappings,
                Wake::Received(Some(event)),
            ) == (MessageAction::Update { topic, mac, event })
        },
{
}

/// A step does what its kind says.
pub proof fn law_step_does_what_its_kind_says(step: EventStep)
    ensures
        step is Stop <==> step.action() == MessageAction::Stop,
        step is Wait <==> step.action() is Wait,
        step is Skip <==> step.action() is Skip,
        step is Update <==> step.action() is Update,
        step matches EventStep::Wait { seconds, .. } ==> step.action() == MessageAction::Wait(
            seconds,
        ),
        step matches EventStep::Skip { device_id, .. } ==> step.action() == MessageAction::Skip(
            device_id,
        ),
        step matches EventStep::Update(update) ==> step.action() == (MessageAction::Update {
            topic: update.topic(),
            mac: update.address(),
            event: update.message(),
        }),
{
}

} // verus!
