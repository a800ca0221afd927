//! What the controller asks of the network: it listens to devices and never commands them.

use crate::devices::Device;
use crate::pass::{Step, EVENT_BUFFER_SIZE};
use crate::pass_laws::{is_pass, law_restart_comes_once_and_last, PassState};
use crate::scanning::{ScanCall, ScanTurn};
use vstd::prelude::*;

verus! {

/// What can be asked of the network.
pub enum NetworkCall {
    /// Scan it for devices.
    Discover,
    /// Read what is known of the devices.
    ReadDevices,
    /// Start receivers for the messages of devices, with room for this many messages.
    StartReceivers(usize),
    /// Shut down.
    Shutdown,
    /// Change which requests to devices are allowed.
    ChangePolicy,
    /// Send a request to this device.
    Command(usize),
}

/// The call is one of those that only listen: it scans, reads, starts receivers with the set room
/// for messages, or shuts down.
pub open spec fn only_listens(call: NetworkCall) -> bool {
    match call {
        NetworkCall::Discover => true,
        NetworkCall::ReadDevices => true,
        NetworkCall::StartReceivers(buffer_size) => buffer_size == EVENT_BUFFER_SIZE,
        NetworkCall::Shutdown => true,
        NetworkCall::ChangePolicy => false,
        NetworkCall::Command(_) => false,
    }
}

/// What a step of a pass asks of the network. Apart from the restart of the receivers, a step asks
/// something of the distributed hash table or nothing at all.
pub open spec fn network_calls_of_step(step: Step) -> Seq<NetworkCall> {
    match step {
        Step::Check(_) => Seq::empty(),
        Step::Repair(_) => Seq::empty(),
        Step::List(_) => Seq::empty(),
        Step::Create(_) => Seq::empty(),
        Step::Restart { buffer_size } => seq![NetworkCall::StartReceivers(buffer_size)],
        Step::Finish => Seq::empty(),
    }
}

/// What a pass asks of the network.
pub open spec fn network_calls_of_pass(states: Seq<PassState>) -> Seq<NetworkCall>
    decreases states.len(),
{
    if states.len() == 0 {
        seq![NetworkCall::ReadDevices]
    } else {
        network_calls_of_pass(states.drop_last()) + network_calls_of_step(states.last().step)
    }
}

/// One turn of the scanning loop, with the scan and the pass that it runs if the scan succeeds.
pub struct NetworkTurn {
    pub turn: ScanTurn,
    pub devices: Seq<Device>,
    pub pass: Seq<PassState>,
}

/// What the calls of the scanning loop in a turn ask of the network.
pub open spec fn network_calls_of_scan(
    calls: Seq<ScanCall>,
    pass: Seq<PassState>,
) -> Seq<NetworkCall>
    decreases calls.len(),
{
    if calls.len() == 0 {
        Seq::empty()
    } else {
        network_calls_of_scan(calls.drop_last(), pass) + match calls.last() {
            ScanCall::Discover => seq![NetworkCall::Discover],
            ScanCall::Process => network_calls_of_pass(pass),
            ScanCall::Shutdown => seq![NetworkCall::Shutdown],
        }
    }
}

/// What the controller asks of the network in a run over some turns. It asks nothing after the turn
/// in which it is cancelled.
pub open spec fn network_run(turns: Seq<NetworkTurn>) -> Seq<NetworkCall>
    decreases turns.len(),
{
    if turns.len() == 0 {
        Seq::empty()
    } else {
        let before = network_run(turns.drop_last());
        if exists|i: int| 0 <= i < turns.len() - 1 && (#[trigger] turns[i]).turn.cancelled {
            before
        } else {
            before + network_calls_of_scan(turns.last().turn.calls(), turns.last().pass)
        }
    }
}

/// All of the calls only listen.
pub open spec fn all_listen(calls: Seq<NetworkCall>) -> bool {
    forall|i: int| 0 <= i < calls.len() ==> only_listens(#[trigger] calls[i])
}

proof fn lemma_listen_together(a: Seq<NetworkCall>, b: Seq<NetworkCall>)
    requires
        all_listen(a),
        all_listen(b),
    ensures
        all_listen(a + b),
{
    assert forall|i: int| 0 <= i < (a + b).len() implies only_listens(#[trigger] (a + b)[i]) by {
        if i < a.len() {
            assert((a + b)[i] == a[i]);
        } else {
            assert((a + b)[i] == b[i - a.len()]);
        }
    }
}

proof fn lemma_pass_listens(devices: Seq<Device>, states: Seq<PassState>, count: int)
    requires
        states.len() > 0 ==> is_pass(devices, states),
        0 <= count <= states.len(),
    ensures
        all_listen(network_calls_of_pass(states.take(count))),
    decreases count,
{
    let some = states.take(count);
    if count > 0 {
        assert(some.drop_last() =~= states.take(count - 1));
        assert(some.last() == states[count - 1]);
        lemma_pass_listens(devices, states, count - 1);
        if states[count - 1].step is Restart {
            law_restart_comes_once_and_last(devices, states, count - 1);
        }
        lemma_listen_together(
            network_calls_of_pass(some.drop_last()),
            network_calls_of_step(some.last().step),
        );
    }
}

proof fn lemma_scan_listens(calls: Seq<ScanCall>, pass: Seq<PassState>)
    requires
        all_listen(network_calls_of_pass(pass)),
    ensures
        all_listen(network_calls_of_scan(calls, pass)),
    decreases calls.len(),
{
    if calls.len() > 0 {
        lemma_scan_listens(calls.drop_last(), pass);
        lemma_listen_together(
            network_calls_of_scan(calls.drop_last(), pass),
            match calls.last() {
                ScanCall::Discover => seq![NetworkCall::Discover],
                ScanCall::Process => network_calls_of_pass(pass),
                ScanCall::Shutdown => seq![NetworkCall::Shutdown],
            },
        );
    }
}

/// The controller is passive: whatever it meets, all that it ever asks of the network is to scan,
/// to read the devices, to start receivers with room for [`EVENT_BUFFER_SIZE`] messages and to
/// shut down. It sends no command to a device.
pub proof fn law_controller_is_passive(turns: Seq<NetworkTurn>)
    requires
        forall|i: int|
            0 <= i < turns.len() ==> (#[trigger] turns[i]).pass.len() == 0 || is_pass(
                turns[i].devices,
                turns[i].pass,
            ),
    ensures
        all_listen(network_run(turns)),
    decreases turns.len(),
{
    if turns.len() > 0 {
        let earlier = turns.drop_last();
        let last = turns[turns.len() - 1];
        assert forall|i: int| 0 <= i < earlier.len() implies (
        #[trigger] earlier[i]).pass.len() == 0 || is_pass(earlier[i].devices, earlier[i].pass) by {
            assert(earlier[i] == turns[i]);
        }
        law_controller_is_passive(earlier);
        lemma_pass_listens(last.devices, last.pass, last.pass.len() as int);
        assert(last.pass.take(last.pass.len() as int) =~= last.pass);
        lemma_scan_listens(last.turn.calls(), last.pass);
        lemma_listen_together(
            network_run(earlier),
            network_calls_of_scan(last.turn.calls(), last.pass),
        );
    }
}

} // verus!
