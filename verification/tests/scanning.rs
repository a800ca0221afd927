use smartotum_controller::scanning::{AfterScan, DiscoveryLoop, ScanStep, SERVICE_DOMAIN};

#[derive(Debug, PartialEq)]
enum Call {
    Discover,
    Process,
    Shutdown,
}

/// Runs the loop over turns of cancellation, scan and pass. Gives the calls, the waits and whether
/// the loop has ended.
fn run(turns: &[(bool, Result<(), u8>, Result<(), u8>)]) -> (Vec<Call>, Vec<u64>, bool) {
    let mut discovery = DiscoveryLoop::new();
    let (mut calls, mut waits) = (vec![], vec![]);
    for (cancelled, discovered, processed) in turns {
        waits.push(discovery.interval());
        discovery = match discovery.woken(*cancelled) {
            ScanStep::Shutdown(_) => {
                calls.push(Call::Shutdown);
                return (calls, waits, true);
            }
            ScanStep::Discover(scanning) => {
                calls.push(Call::Discover);
                match scanning.discovered(discovered) {
                    AfterScan::Process(processing) => {
                        calls.push(Call::Process);
                        processing.processed(processed)
                    }
                    AfterScan::Wait(discovery) => discovery,
                }
            }
        };
    }
    (calls, waits, false)
}

#[test]
fn first_scan_is_at_once_and_later_ones_wait() {
    let turn = (false, Ok(()), Ok(()));
    let (calls, waits, ended) = run(&[turn, turn, turn]);
    assert_eq!(waits, vec![0, 30, 30]);
    assert_eq!(
        calls,
        vec![
            Call::Discover,
            Call::Process,
            Call::Discover,
            Call::Process,
            Call::Discover,
            Call::Process,
        ]
    );
    assert!(!ended);
}

#[test]
fn loop_cancelled_at_once_only_shuts_down() {
    let (calls, waits, ended) = run(&[(true, Ok(()), Ok(()))]);
    assert_eq!(calls, vec![Call::Shutdown]);
    assert_eq!(waits, vec![0]);
    assert!(ended);
}

#[test]
fn failed_scans_and_passes_do_not_end_the_loop() {
    let (calls, waits, ended) =
        run(&[(false, Err(1), Ok(())), (false, Ok(()), Err(2)), (false, Err(3), Err(4))]);
    assert_eq!(calls, vec![Call::Discover, Call::Discover, Call::Process, Call::Discover]);
    assert_eq!(waits, vec![0, 30, 30]);
    assert!(!ended);
}

#[test]
fn shutdown_is_the_last_call() {
    let turn = (false, Ok(()), Ok(()));
    let (calls, _, ended) = run(&[turn, (true, Ok(()), Ok(())), turn]);
    assert_eq!(calls, vec![Call::Discover, Call::Process, Call::Shutdown]);
    assert!(ended);
}

#[test]
fn devices_are_discovered_under_their_domain() {
    assert_eq!(SERVICE_DOMAIN, "ascot");
}
