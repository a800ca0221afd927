//! The loop that scans the network: what it does next, and what holds of its runs.

use vstd::prelude::*;

verus! {

/// The domain under which devices are discovered.
pub const SERVICE_DOMAIN: &'static str = "ascot";

/// The number of seconds between two scans of the network.
pub const DISCOVERY_INTERVAL: u64 = 30;

/// A call on the network controller that the scanning loop asks for.
pub enum ScanCall {
    /// Scan the network.
    Discover,
    /// Start a pass over the devices of the scan.
    Process,
    /// Shut the network controller down.
    Shutdown,
}

/// A loop has shut down: its last call does it, and no other one.
pub open spec fn shuts_down_last(calls: Seq<ScanCall>) -> bool {
    &&& calls.len() > 0
    &&& calls.last() == ScanCall::Shutdown
    &&& !calls.drop_last().contains(ScanCall::Shutdown)
}

/// The scanning loop while it waits for the next scan. Contracts see it as the calls that it has
/// asked for.
pub struct DiscoveryLoop {
    scanned: bool,
    calls: Ghost<Seq<ScanCall>>,
}

/// The scanning loop while the network is scanned.
pub struct Scanning {
    calls: Ghost<Seq<ScanCall>>,
}

/// The scanning loop while a pass over the devices is under way.
pub struct Processing {
    calls: Ghost<Seq<ScanCall>>,
}

/// The scanning loop at its end. Nothing follows.
pub struct ScanningEnded {
    calls: Ghost<Seq<ScanCall>>,
}

/// What the scanning loop does when its wait is over.
pub enum ScanStep {
    /// It was cancelled: the network controller is shut down, and the loop ends.
    Shutdown(ScanningEnded),
    /// It scans the network.
    Discover(Scanning),
}

/// What the scanning loop does after a scan.
pub enum AfterScan {
    /// It starts a pass over the devices.
    Process(Processing),
    /// The scan failed: it waits.
    Wait(DiscoveryLoop),
}

impl View for DiscoveryLoop {
    type V = Seq<ScanCall>;

    closed spec fn view(&self) -> Seq<ScanCall> {
        self.calls@
    }
}

impl View for Scanning {
    type V = Seq<ScanCall>;

    closed spec fn view(&self) -> Seq<ScanCall> {
        self.calls@
    }
}

impl View for Processing {
    type V = Seq<ScanCall>;

    closed spec fn view(&self) -> Seq<ScanCall> {
        self.calls@
    }
}

impl View for ScanningEnded {
    type V = Seq<ScanCall>;

    closed spec fn view(&self) -> Seq<ScanCall> {
        self.calls@
    }
}

impl DiscoveryLoop {
    #[verifier::type_invariant]
    spec fn goes_on(self) -> bool {
        &&& self.scanned == (self.calls@.len() > 0)
        &&& !self.calls@.contains(ScanCall::Shutdown)
    }

    /// Starts without a call.
    pub fn new() -> (discovery: DiscoveryLoop)
        ensures
            discovery@ == Seq::<ScanCall>::empty(),
    {
        DiscoveryLoop { scanned: false, calls: Ghost(Seq::empty()) }
    }

    /// How many seconds to wait for the next scan: none before the first.
    pub fn interval(&self) -> (seconds: u64)
        ensures
            seconds == (if self@.len() == 0 {
                0
            } else {
                DISCOVERY_INTERVAL
            }),
    {
        proof {
            use_type_invariant(&*self);
        }
        if self.scanned {
            DISCOVERY_INTERVAL
        } else {
            0
        }
    }

    /// Goes on when the wait is over, or when the loop has been cancelled. It ends if and only if
    /// it has been cancelled, and the call that ends it is its only one of that sort.
    pub fn woken(self, cancelled: bool) -> (step: ScanStep)
        ensures
            cancelled ==> {
                &&& step matches ScanStep::Shutdown(ended)
                &&& ended@ == self@.push(ScanCall::Shutdown)
                &&& shuts_down_last(ended@)
            },
            !cancelled ==> {
                &&& step matches ScanStep::Discover(scanning)
                &&& scanning@ == self@.push(ScanCall::Discover)
            },
    {
        proof {
            use_type_invariant(&self);
        }
        if cancelled {
            let ghost calls = self@.push(ScanCall::Shutdown);
            assert(calls.drop_last() == self@);
            ScanStep::Shutdown(ScanningEnded { calls: Ghost(calls) })
        } else {
            let ghost calls = self@.push(ScanCall::Discover);
            proof {
                lemma_no_shutdown(self@, ScanCall::Discover);
            }
            ScanStep::Discover(Scanning { calls: Ghost(calls) })
        }
    }
}

proof fn lemma_no_shutdown(calls: Seq<ScanCall>, call: ScanCall)
    requires
        !calls.contains(ScanCall::Shutdown),
        call != ScanCall::Shutdown,
    ensures
        !calls.push(call).contains(ScanCall::Shutdown),
{
    assert forall|i: int| 0 <= i < calls.push(call).len() implies calls.push(call)[i]
        != ScanCall::Shutdown by {
        if i < calls.len() {
            assert(calls.push(call)[i] == calls[i]);
        }
    }
}

impl Scanning {
    #[verifier::type_invariant]
    spec fn goes_on(self) -> bool {
        &&& self.calls@.len() > 0
        &&& !self.calls@.contains(ScanCall::Shutdown)
    }

    /// Goes on after the scan. A scan that failed leaves the devices alone, and the loop waits.
    pub fn discovered<E>(self, outcome: &Result<(), E>) -> (step: AfterScan)
        ensures
            match outcome {
                Ok(_) => {
                    &&& step matches AfterScan::Process(processing)
                    &&& processing@ == self@.push(ScanCall::Process)
                },
                Err(_) => {
                    &&& step matches AfterScan::Wait(discovery)
                    &&& discovery@ == self@
                    &&& self@.len() > 0
                },
            },
    {
        proof {
            use_type_invariant(&self);
        }
        match outcome {
            Ok(_) => {
                proof {
                    lemma_no_shutdown(self@, ScanCall::Process);
                }
                AfterScan::Process(Processing { calls: Ghost(self@.push(ScanCall::Process)) })
            },
            Err(_) => AfterScan::Wait(DiscoveryLoop { scanned: true, calls: self.calls }),
        }
    }
}

impl Processing {
    #[verifier::type_invariant]
    spec fn goes_on(self) -> bool {
        &&& self.calls@.len() > 0
        &&& !self.calls@.contains(ScanCall::Shutdown)
    }

    /// Goes on after the pass: the loop waits, whether the pass went well or not.
    pub fn processed<E>(self, _outcome: &Result<(), E>) -> (discovery: DiscoveryLoop)
        ensures
            discovery@ == self@,
            self@.len() > 0,
    {
        proof {
            use_type_invariant(&self);
        }
        DiscoveryLoop { scanned: true, calls: self.calls }
    }
}

/// What one turn of the scanning loop meets: whether it has been cancelled when its wait is over,
/// and whether the scan and the pass succeed.
pub struct ScanTurn {
    pub cancelled: bool,
    pub discovered: bool,
    pub processed: bool,
}

impl ScanTurn {
    /// The calls that the loop asks for in the turn.
    pub open spec fn calls(self) -> Seq<ScanCall> {
        if self.cancelled {
            seq![ScanCall::Shutdown]
        } else if self.discovered {
            seq![ScanCall::Discover, ScanCall::Process]
        } else {
            seq![ScanCall::Discover]
        }
    }
}

/// Whether the scanning loop has ended after some turns: it has shut down.
pub open spec fn scanning_ended(turns: Seq<ScanTurn>) -> bool {
    scan_run(turns).contains(ScanCall::Shutdown)
}

/// The calls of a run of the scanning loop over some turns. Turns after its end count for nothing.
pub open spec fn scan_run(turns: Seq<ScanTurn>) -> Seq<ScanCall>
    decreases turns.len(),
{
    if turns.len() == 0 {
        Seq::empty()
    } else {
        let before = scan_run(turns.drop_last());
        if before.contains(ScanCall::Shutdown) {
            before
        } else {
            before + turns.last().calls()
        }
    }
}

/// A turn adds its calls to those of a run that has not ended.
pub proof fn law_scan_run_turn_by_turn(turns: Seq<ScanTurn>, turn: ScanTurn)
    ensures
        scan_run(Seq::<ScanTurn>::empty()) == Seq::<ScanCall>::empty(),
        scan_run(turns.push(turn)) == (if scanning_ended(turns) {
            scan_run(turns)
        } else {
            scan_run(turns) + turn.calls()
        }),
{
    assert(turns.push(turn).drop_last() =~= turns);
}

/// The scanning loop ends if and only if it is cancelled: no scan and no pass that fails ends it.
/// When it ends, shutting down is the last of its calls, and it has done so once.
pub proof fn law_scanning_ends_with_the_only_shutdown(turns: Seq<ScanTurn>)
    ensures
        scanning_ended(turns) <==> exists|i: int|
            0 <= i < turns.len() && (#[trigger] turns[i]).cancelled,
        scanning_ended(turns) ==> shuts_down_last(scan_run(turns)),
    decreases turns.len(),
{
    if turns.len() > 0 {
        let earlier = turns.drop_last();
        let before = scan_run(earlier);
        let after = scan_run(turns);
        law_scanning_ends_with_the_only_shutdown(earlier);
        if scanning_ended(earlier) {
            let i = choose|i: int| 0 <= i < earlier.len() && (#[trigger] earlier[i]).cancelled;
            assert(turns[i].cancelled);
        } else {
            let calls = turns.last().calls();
            assert forall|i: int| 0 <= i < turns.len() - 1 implies !(
            #[trigger] turns[i]).cancelled by {
                assert(earlier[i] == turns[i]);
            }
            if turns.last().cancelled {
                assert(turns[turns.len() - 1].cancelled);
                assert(after[before.len() as int] == ScanCall::Shutdown);
                assert(after.drop_last() =~= before);
            } else {
                assert forall|j: int| 0 <= j < after.len() implies after[j] != ScanCall::Shutdown by {
                    if j < before.len() {
                        assert(after[j] == before[j]);
                    } else {
                        assert(after[j] == calls[j - before.len()]);
                    }
                }
            }
        }
    }
}

} // verus!
