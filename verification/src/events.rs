//! What a device reports about itself.

use vstd::prelude::*;

verus! {

/// A measured number, such as a temperature, kept as the bits of an IEEE 754 number in single
/// precision.
#[derive(Clone, Copy, Debug)]
pub struct Reading {
    pub bits: u32,
}

impl Reading {
    /// The bits without the sign.
    pub open spec fn magnitude(self) -> int {
        self.bits as int % 0x8000_0000
    }

    /// Whether the bits are those of no number at all: the exponent is full and the fraction is
    /// not zero.
    pub open spec fn is_nan(self) -> bool {
        self.magnitude() > 0x7f80_0000
    }

    /// Equality of numbers: the two zeros are equal, and what is no number equals nothing, not
    /// even itself.
    pub open spec fn reads_as(self, other: Reading) -> bool {
        &&& !self.is_nan()
        &&& !other.is_nan()
        &&& self.bits == other.bits || (self.magnitude() == 0 && other.magnitude() == 0)
    }

    /// Compares two readings as numbers.
    pub fn same_reading(self, other: Reading) -> (same: bool)
        ensures
            same == self.reads_as(other),
    {
        let a: u32 = self.bits % 0x8000_0000;
        let b: u32 = other.bits % 0x8000_0000;
        a <= 0x7f80_0000 && b <= 0x7f80_0000 && (self.bits == other.bits || (a == 0 && b == 0))
    }
}

/// One named value that a device reports.
#[derive(Clone)]
pub struct Event<T> {
    pub name: String,
    pub value: T,
}

/// All the values that one message of a device reports, by type. Those of periodic events are
/// listed apart.
pub struct Events {
    pub bool_events: Vec<Event<bool>>,
    pub periodic_bool_events: Vec<Event<bool>>,
    pub u8_events: Vec<Event<u8>>,
    pub periodic_u8_events: Vec<Event<u8>>,
    pub float_events: Vec<Event<Reading>>,
    pub periodic_float_events: Vec<Event<Reading>>,
}

/// A message of a device, with the device that sent it.
pub struct EventPayload {
    pub device_id: usize,
    pub events: Events,
}

impl Events {
    /// The boolean events in the order in which they take effect.
    pub open spec fn bools(self) -> Seq<Event<bool>> {
        self.bool_events@ + self.periodic_bool_events@
    }

    /// The byte events in the order in which they take effect.
    pub open spec fn bytes(self) -> Seq<Event<u8>> {
        self.u8_events@ + self.periodic_u8_events@
    }

    /// The number events in the order in which they take effect.
    pub open spec fn floats(self) -> Seq<Event<Reading>> {
        self.float_events@ + self.periodic_float_events@
    }
}

/// The name of the mode that a device reports by number.
pub open spec fn mode_name(value: u8) -> Option<Seq<char>> {
    if value == 0 {
        Some("manual"@)
    } else if value == 1 {
        Some("motion-detection"@)
    } else if value == 2 {
        Some("ambient-light"@)
    } else {
        None
    }
}

/// The status after some events: what the last event named `status` says.
pub open spec fn status_after(status: bool, events: Seq<Event<bool>>) -> bool
    decreases events.len(),
{
    if events.len() == 0 {
        status
    } else if events.last().name@ == "status"@ {
        events.last().value
    } else {
        status_after(status, events.drop_last())
    }
}

/// The mode after some events: what the last event named `mode` with a known number says.
pub open spec fn mode_after(mode: Seq<char>, events: Seq<Event<u8>>) -> Seq<char>
    decreases events.len(),
{
    if events.len() == 0 {
        mode
    } else if events.last().name@ == "mode"@ && mode_name(events.last().value) is Some {
        mode_name(events.last().value)->0
    } else {
        mode_after(mode, events.drop_last())
    }
}

/// The temperature after some events: each event named `temperature` replaces the one before,
/// unless it reads the same.
pub open spec fn temperature_after(
    temperature: Reading,
    events: Seq<Event<Reading>>,
) -> Reading
    decreases events.len(),
{
    if events.len() == 0 {
        temperature
    } else {
        let before = temperature_after(temperature, events.drop_last());
        if events.last().name@ == "temperature"@ && !events.last().value.reads_as(before) {
            events.last().value
        } else {
            before
        }
    }
}

/// What the events of a device speak of.
pub struct DeviceState {
    pub status: bool,
    pub temperature: Reading,
    pub mode: Seq<char>,
}

/// The state of a device after the events of one message.
pub open spec fn state_after(state: DeviceState, events: Events) -> DeviceState {
    DeviceState {
        status: status_after(state.status, events.bools()),
        temperature: temperature_after(state.temperature, events.floats()),
        mode: mode_after(state.mode, events.bytes()),
    }
}

proof fn lemma_status_after_in_turn(status: bool, a: Seq<Event<bool>>, b: Seq<Event<bool>>)
    ensures
        status_after(status, a + b) == status_after(status_after(status, a), b),
    decreases b.len(),
{
    if b.len() == 0 {
        assert(a + b =~= a);
    } else {
        assert((a + b).drop_last() =~= a + b.drop_last());
        lemma_status_after_in_turn(status, a, b.drop_last());
    }
}

proof fn lemma_mode_after_in_turn(mode: Seq<char>, a: Seq<Event<u8>>, b: Seq<Event<u8>>)
    ensures
        mode_after(mode, a + b) == mode_after(mode_after(mode, a), b),
    decreases b.len(),
{
    if b.len() == 0 {
        assert(a + b =~= a);
    } else {
        assert((a + b).drop_last() =~= a + b.drop_last());
        lemma_mode_after_in_turn(mode, a, b.drop_last());
    }
}

proof fn lemma_temperature_after_in_turn(
    temperature: Reading,
    a: Seq<Event<Reading>>,
    b: Seq<Event<Reading>>,
)
    ensures
        temperature_after(temperature, a + b) == temperature_after(
            temperature_after(temperature, a),
            b,
        ),
    decreases b.len(),
{
    if b.len() == 0 {
        assert(a + b =~= a);
    } else {
        assert((a + b).drop_last() =~= a + b.drop_last());
        lemma_temperature_after_in_turn(temperature, a, b.drop_last());
    }
}

fn apply_status(current: bool, events: &Vec<Event<bool>>) -> (status: bool)
    ensures
        status == status_after(current, events@),
{
    let key = "status".to_string();
    let mut status = current;
    let mut i: usize = 0;
    while i < events.len()
        invariant
            i <= events.len(),
            key@ == "status"@,
            status == status_after(current, events@.take(i as int)),
        decreases events.len() - i,
    {
        let event = &events[i];
        if event.name == key && event.value != status {
            status = event.value;
        }
        assert(events@.take(i + 1).drop_last() =~= events@.take(i as int));
        i += 1;
    }
    assert(events@.take(i as int) =~= events@);
    status
}

fn apply_mode(current: String, events: &Vec<Event<u8>>) -> (mode: String)
    ensures
        mode@ == mode_after(current@, events@),
{
    let key = "mode".to_string();
    let ghost first = current@;
    let mut mode = current;
    let mut i: usize = 0;
    while i < events.len()
        invariant
            i <= events.len(),
            key@ == "mode"@,
            mode@ == mode_after(first, events@.take(i as int)),
        decreases events.len() - i,
    {
        let event = &events[i];
        if event.name == key {
            let new_mode = match event.value {
                0 => Some("manual"),
                1 => Some("motion-detection"),
                2 => Some("ambient-light"),
                _ => None,
            };
            if let Some(new_mode) = new_mode {
                mode = new_mode.to_string();
            }
        }
        assert(events@.take(i + 1).drop_last() =~= events@.take(i as int));
        i += 1;
    }
    assert(events@.take(i as int) =~= events@);
    mode
}

fn apply_temperature(current: Reading, events: &Vec<Event<Reading>>) -> (temperature: Reading)
    ensures
        temperature == temperature_after(current, events@),
{
    let key = "temperature".to_string();
    let mut temperature = current;
    let mut i: usize = 0;
    while i < events.len()
        invariant
            i <= events.len(),
            key@ == "temperature"@,
            temperature == temperature_after(current, events@.take(i as int)),
        decreases events.len() - i,
    {
        let event = &events[i];
        if event.name == key && !event.value.same_reading(temperature) {
            temperature = event.value;
        }
        assert(events@.take(i + 1).drop_last() =~= events@.take(i as int));
        i += 1;
    }
    assert(events@.take(i as int) =~= events@);
    temperature
}

impl Events {
    /// The status of a device after these events.
    pub(crate) fn settle_status(&self, current: bool) -> (status: bool)
        ensures
            status == status_after(current, self.bools()),
    {
        proof {
            lemma_status_after_in_turn(
                current,
                self.bool_events@,
                self.periodic_bool_events@,
            );
        }
        apply_status(apply_status(current, &self.bool_events), &self.periodic_bool_events)
    }

    /// The mode of a device after these events.
    pub(crate) fn settle_mode(&self, current: &String) -> (mode: String)
        ensures
            mode@ == mode_after(current@, self.bytes()),
    {
        proof {
            lemma_mode_after_in_turn(current@, self.u8_events@, self.periodic_u8_events@);
        }
        apply_mode(apply_mode(current.clone(), &self.u8_events), &self.periodic_u8_events)
    }

    /// The temperature of a device after these events.
    pub(crate) fn settle_temperature(&self, current: Reading) -> (temperature: Reading)
        ensures
            temperature == temperature_after(current, self.floats()),
    {
        proof {
            lemma_temperature_after_in_turn(
                current,
                self.float_events@,
                self.periodic_float_events@,
            );
        }
        apply_temperature(
            apply_temperature(current, &self.float_events),
            &self.periodic_float_events,
        )
    }
}

proof fn lemma_status_replay(status: bool, events: Seq<Event<bool>>)
    ensures
        status_after(status_after(status, events), events) == status_after(status, events),
    decreases events.len(),
{
    if events.len() > 0 && events.last().name@ != "status"@ {
        lemma_status_replay(status, events.drop_last());
    }
}

proof fn lemma_mode_replay(mode: Seq<char>, events: Seq<Event<u8>>)
    ensures
        mode_after(mode_after(mode, events), events) == mode_after(mode, events),
    decreases events.len(),
{
    if events.len() > 0 && !(events.last().name@ == "mode"@ && mode_name(
        events.last().value,
    ) is Some) {
        lemma_mode_replay(mode, events.drop_last());
    }
}

/// From two temperatures the same events lead to one reading, or change neither.
proof fn lemma_temperatures_meet(a: Reading, b: Reading, events: Seq<Event<Reading>>)
    ensures
        ({
            let (x, y) = (temperature_after(a, events), temperature_after(b, events));
            x == y || x.reads_as(y) || (x == a && y == b)
        }),
    decreases events.len(),
{
    if events.len() > 0 {
        lemma_temperatures_meet(a, b, events.drop_last());
    }
}

proof fn lemma_temperature_replay(temperature: Reading, events: Seq<Event<Reading>>)
    ensures
        temperature_after(temperature_after(temperature, events), events) == temperature_after(
            temperature,
            events,
        ),
    decreases events.len(),
{
    if events.len() > 0 {
        lemma_temperature_replay(temperature, events.drop_last());
        lemma_temperatures_meet(temperature, events.last().value, events.drop_last());
    }
}

/// A message that arrives twice changes nothing the second time.
pub proof fn law_replay_changes_nothing(state: DeviceState, events: Events)
    ensures
        state_after(state_after(state, events), events) == state_after(state, events),
{
    lemma_status_replay(state.status, events.bools());
    lemma_mode_replay(state.mode, events.bytes());
    lemma_temperature_replay(state.temperature, events.floats());
}

/// The last event named `status` decides the status.
pub proof fn law_last_status_decides(status: bool, events: Seq<Event<bool>>, k: int)
    requires
        0 <= k < events.len(),
        events[k].name@ == "status"@,
        forall|j: int| k < j < events.len() ==> (#[trigger] events[j]).name@ != "status"@,
    ensures
        status_after(status, events) == events[k].value,
    decreases events.len(),
{
    if k < events.len() - 1 {
        assert(events[events.len() - 1].name@ != "status"@);
        law_last_status_decides(status, events.drop_last(), k);
    }
}

/// The last event named `mode` that carries a known number decides the mode.
pub proof fn law_last_mode_decides(mode: Seq<char>, events: Seq<Event<u8>>, k: int)
    requires
        0 <= k < events.len(),
        events[k].name@ == "mode"@,
        mode_name(events[k].value) is Some,
        forall|j: int|
            k < j < events.len() ==> (#[trigger] events[j]).name@ != "mode"@ || mode_name(
                events[j].value,
            ) is None,
    ensures
        Some(mode_after(mode, events)) == mode_name(events[k].value),
    decreases events.len(),
{
    if k < events.len() - 1 {
        let last = events[events.len() - 1];
        assert(last.name@ != "mode"@ || mode_name(last.value) is None);
        law_last_mode_decides(mode, events.drop_last(), k);
    }
}

/// The temperature reads as the last event named `temperature` says; where that event is no
/// number, it is taken over as it stands.
pub proof fn law_last_temperature_decides(
    temperature: Reading,
    events: Seq<Event<Reading>>,
    k: int,
)
    requires
        0 <= k < events.len(),
        events[k].name@ == "temperature"@,
        forall|j: int| k < j < events.len() ==> (#[trigger] events[j]).name@ != "temperature"@,
    ensures
        events[k].value.is_nan() ==> temperature_after(temperature, events) == events[k].value,
        !events[k].value.is_nan() ==> temperature_after(temperature, events).reads_as(
            events[k].value,
        ),
    decreases events.len(),
{
    if k < events.len() - 1 {
        assert(events[events.len() - 1].name@ != "temperature"@);
        law_last_temperature_decides(temperature, events.drop_last(), k);
    }
}

/// Events under other names change nothing, nor do modes with an unknown number.
pub proof fn law_other_events_change_nothing(state: DeviceState, events: Events)
    requires
        forall|j: int|
            0 <= j < events.bools().len() ==> (#[trigger] events.bools()[j]).name@ != "status"@,
        forall|j: int|
            0 <= j < events.bytes().len() ==> (#[trigger] events.bytes()[j]).name@ != "mode"@
                || mode_name(events.bytes()[j].value) is None,
        forall|j: int|
            0 <= j < events.floats().len() ==> (#[trigger] events.floats()[j]).name@
                != "temperature"@,
    ensures
        state_after(state, events) == state,
{
    lemma_status_untouched(state.status, events.bools());
    lemma_mode_untouched(state.mode, events.bytes());
    lemma_temperature_untouched(state.temperature, events.floats());
}

proof fn lemma_status_untouched(status: bool, events: Seq<Event<bool>>)
    requires
        forall|j: int| 0 <= j < events.len() ==> (#[trigger] events[j]).name@ != "status"@,
    ensures
        status_after(status, events) == status,
    decreases events.len(),
{
    if events.len() > 0 {
        assert(events[events.len() - 1].name@ != "status"@);
        lemma_status_untouched(status, events.drop_last());
    }
}

proof fn lemma_mode_untouched(mode: Seq<char>, events: Seq<Event<u8>>)
    requires
        forall|j: int|
            0 <= j < events.len() ==> (#[trigger] events[j]).name@ != "mode"@ || mode_name(
                events[j].value,
            ) is None,
    ensures
        mode_after(mode, events) == mode,
    decreases events.len(),
{
    if events.len() > 0 {
        let last = events[events.len() - 1];
        assert(last.name@ != "mode"@ || mode_name(last.value) is None);
        lemma_mode_untouched(mode, events.drop_last());
    }
}

proof fn lemma_temperature_untouched(temperature: Reading, events: Seq<Event<Reading>>)
    requires
        forall|j: int| 0 <= j < events.len() ==> (#[trigger] events[j]).name@ != "temperature"@,
    ensures
        temperature_after(temperature, events) == temperature,
    decreases events.len(),
{
    if events.len() > 0 {
        assert(events[events.len() - 1].name@ != "temperature"@);
        lemma_temperature_untouched(temperature, events.drop_last());
    }
}

/// Readings compare as numbers in single precision do. A reading is split into its sign, eight bits
/// of exponent and 23 bits of fraction: it is no number if the exponent is full and the fraction is
/// not zero, and it is zero if both are. Two numbers are equal if all three agree or both are zero.
pub proof fn law_readings_compare_as_numbers(a: Reading, b: Reading)
    ensures
        ({
            let exponent_a = (a.bits as int / 0x80_0000) % 0x100;
            let exponent_b = (b.bits as int / 0x80_0000) % 0x100;
            let fraction_a = a.bits as int % 0x80_0000;
            let fraction_b = b.bits as int % 0x80_0000;
            let sign_a = a.bits as int / 0x8000_0000;
            let sign_b = b.bits as int / 0x8000_0000;
            let nan_a = exponent_a == 0xff && fraction_a != 0;
            let nan_b = exponent_b == 0xff && fraction_b != 0;
            let zero_a = exponent_a == 0 && fraction_a == 0;
            let zero_b = exponent_b == 0 && fraction_b == 0;
            &&& a.is_nan() == nan_a
            &&& a.reads_as(b) <==> !nan_a && !nan_b && ((zero_a && zero_b) || (sign_a == sign_b
                && exponent_a == exponent_b && fraction_a == fraction_b))
            &&& a.reads_as(b) == b.reads_as(a)
        }),
{
}

/// No event from a position on has a name.
pub open spec fn none_named<T>(events: Seq<Event<T>>, from: int, name: Seq<char>) -> bool {
    forall|j: int| from <= j < events.len() ==> (#[trigger] events[j]).name@ != name
}

/// The event at a position is the last one with a name.
pub open spec fn last_named<T>(events: Seq<Event<T>>, k: int, name: Seq<char>) -> bool {
    &&& 0 <= k < events.len()
    &&& events[k].name@ == name
    &&& none_named(events, k + 1, name)
}

/// The status after a message is what the last periodic event named `status` says; without one,
/// what the last other event of that name says; without any, it stays.
pub proof fn law_status_after_a_message(state: DeviceState, events: Events, k: int)
    ensures
        last_named(events.periodic_bool_events@, k, "status"@) ==> state_after(state, events).status
            == events.periodic_bool_events@[k].value,
        none_named(events.periodic_bool_events@, 0, "status"@) && last_named(
            events.bool_events@,
            k,
            "status"@,
        ) ==> state_after(state, events).status == events.bool_events@[k].value,
        none_named(events.periodic_bool_events@, 0, "status"@) && none_named(
            events.bool_events@,
            0,
            "status"@,
        ) ==> state_after(state, events).status == state.status,
{
    let (first, second) = (events.bool_events@, events.periodic_bool_events@);
    lemma_status_after_in_turn(state.status, first, second);
    let between = status_after(state.status, first);
    if last_named(second, k, "status"@) {
        law_last_status_decides(between, second, k);
    }
    if none_named(second, 0, "status"@) {
        lemma_status_untouched(between, second);
    }
    if last_named(first, k, "status"@) {
        law_last_status_decides(state.status, first, k);
    }
    if none_named(first, 0, "status"@) {
        lemma_status_untouched(state.status, first);
    }
}

/// The temperature after a message is taken from an event: it reads the same, and where the event
/// is no number, it is that event as it stands.
pub open spec fn takes(temperature: Reading, event: Reading) -> bool {
    temperature == event || temperature.reads_as(event)
}

/// The temperature after a message is taken from the last periodic event named `temperature`,
/// whatever else the message holds; without one, from the last other event of that name; without
/// any, it stays.
pub proof fn law_temperature_after_a_message(state: DeviceState, events: Events, k: int)
    ensures
        last_named(events.periodic_float_events@, k, "temperature"@) ==> takes(
            state_after(state, events).temperature,
            events.periodic_float_events@[k].value,
        ),
        none_named(events.periodic_float_events@, 0, "temperature"@) && last_named(
            events.float_events@,
            k,
            "temperature"@,
        ) ==> takes(state_after(state, events).temperature, events.float_events@[k].value),
        none_named(events.periodic_float_events@, 0, "temperature"@) && none_named(
            events.float_events@,
            0,
            "temperature"@,
        ) ==> state_after(state, events).temperature == state.temperature,
{
    let (first, second) = (events.float_events@, events.periodic_float_events@);
    lemma_temperature_after_in_turn(state.temperature, first, second);
    let between = temperature_after(state.temperature, first);
    if last_named(second, k, "temperature"@) {
        law_last_temperature_decides(between, second, k);
    }
    if none_named(second, 0, "temperature"@) {
        lemma_temperature_untouched(between, second);
    }
    if last_named(first, k, "temperature"@) {
        law_last_temperature_decides(state.temperature, first, k);
    }
    if none_named(first, 0, "temperature"@) {
        lemma_temperature_untouched(state.temperature, first);
    }
}

/// One more event at the end of a message that is named `temperature` replaces the temperature if
/// it reads otherwise, and leaves it as it stands, down to the sign of zero, if it reads the same.
pub proof fn law_one_more_temperature(
    state: DeviceState,
    events: Events,
    longer: Events,
    event: Event<Reading>,
)
    requires
        longer.float_events@ == events.float_events@,
        longer.periodic_float_events@ == events.periodic_float_events@.push(event),
    ensures
        event.name@ == "temperature"@ && event.value.reads_as(
            state_after(state, events).temperature,
        ) ==> state_after(state, longer).temperature == state_after(state, events).temperature,
        event.name@ == "temperature"@ && !event.value.reads_as(
            state_after(state, events).temperature,
        ) ==> state_after(state, longer).temperature == event.value,
        event.name@ != "temperature"@ ==> state_after(state, longer).temperature == state_after(
            state,
            events,
        ).temperature,
{
    assert(longer.floats() =~= events.floats().push(event));
    assert(longer.floats().drop_last() =~= events.floats());
}

/// No event from a position on is named `mode` with a number that a mode has.
pub open spec fn no_mode(events: Seq<Event<u8>>, from: int) -> bool {
    forall|j: int|
        from <= j < events.len() ==> !((#[trigger] events[j]).name@ == "mode"@ && events[j].value
            <= 2)
}

/// The event at a position is the last one named `mode` with a number that a mode has.
pub open spec fn last_mode(events: Seq<Event<u8>>, k: int) -> bool {
    &&& 0 <= k < events.len()
    &&& events[k].name@ == "mode"@
    &&& events[k].value <= 2
    &&& no_mode(events, k + 1)
}

/// The text is the name of the mode with a number.
pub open spec fn names_mode(mode: Seq<char>, number: u8) -> bool {
    &&& number == 0 ==> mode == "manual"@
    &&& number == 1 ==> mode == "motion-detection"@
    &&& number == 2 ==> mode == "ambient-light"@
}

/// The mode after a message is what the last periodic event named `mode` with a number from 0 to 2
/// says; without one, what the last other event of that sort says; without any, it stays.
pub proof fn law_mode_after_a_message(state: DeviceState, events: Events, k: int)
    ensures
        last_mode(events.periodic_u8_events@, k) ==> names_mode(
            state_after(state, events).mode,
            events.periodic_u8_events@[k].value,
        ),
        no_mode(events.periodic_u8_events@, 0) && last_mode(events.u8_events@, k) ==> names_mode(
            state_after(state, events).mode,
            events.u8_events@[k].value,
        ),
        no_mode(events.periodic_u8_events@, 0) && no_mode(events.u8_events@, 0) ==> state_after(
            state,
            events,
        ).mode == state.mode,
{
    let (first, second) = (events.u8_events@, events.periodic_u8_events@);
    lemma_mode_after_in_turn(state.mode, first, second);
    let between = mode_after(state.mode, first);
    if last_mode(second, k) {
        law_last_mode_decides(between, second, k);
    }
    if no_mode(second, 0) {
        lemma_mode_untouched(between, second);
    }
    if last_mode(first, k) {
        law_last_mode_decides(state.mode, first, k);
    }
    if no_mode(first, 0) {
        lemma_mode_untouched(state.mode, first);
    }
}

} // verus!
