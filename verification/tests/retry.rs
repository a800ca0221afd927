use smartotum_controller::retry::{
    begin_write, with_retry, Attempt, AttemptStep, RetryStep, WriteStep, MAX_RETRIES,
};

fn run(outcomes: &[Result<u8, &'static str>]) -> (Option<Result<u8, &'static str>>, Vec<u64>) {
    let mut attempts = 0;
    let mut waits = vec![];
    for outcome in outcomes {
        match with_retry(attempts, *outcome) {
            RetryStep::Done(result) => return (Some(result), waits),
            RetryStep::Again { attempts: failed, wait_millis, error } => {
                assert_eq!(Err(error), *outcome);
                attempts = failed;
                waits.push(wait_millis);
            }
        }
    }
    (None, waits)
}

#[test]
fn success_ends_a_request() {
    assert_eq!(run(&[Ok(1), Ok(2)]), (Some(Ok(1)), vec![]));
    assert_eq!(run(&[Err("a"), Ok(2)]), (Some(Ok(2)), vec![500]));
    assert_eq!(run(&[Err("a"), Err("b"), Err("c"), Ok(4)]), (Some(Ok(4)), vec![500, 1000, 1500]));
}

#[test]
fn last_failure_ends_a_request() {
    assert_eq!(
        run(&[Err("a"), Err("b"), Err("c"), Err("d"), Ok(5)]),
        (Some(Err("d")), vec![500, 1000, 1500])
    );
}

#[test]
fn failures_before_the_last_do_not_end_a_request() {
    assert_eq!(run(&[Err("a"), Err("b"), Err("c")]), (None, vec![500, 1000, 1500]));
    assert_eq!(MAX_RETRIES, 3);
}

#[test]
fn failure_past_the_retries_is_final() {
    assert!(matches!(with_retry::<u8, u8>(u32::MAX, Err(9)), RetryStep::Done(Err(9))));
    assert!(matches!(with_retry::<u8, u8>(u32::MAX, Ok(9)), RetryStep::Done(Ok(9))));
}

/// Sends a text until the request is over. Gives what was sent and the outcome.
fn send(text: &str, outcomes: &[Result<(), u8>]) -> (Vec<String>, Option<Result<(), u8>>) {
    let mut attempt = Attempt::new(text.to_string());
    let mut sent = vec![];
    for outcome in outcomes {
        sent.push(attempt.what().clone());
        attempt = match attempt.answered(*outcome) {
            AttemptStep::Done(result) => return (sent, Some(result)),
            AttemptStep::Again { attempts, wait_millis, error, attempt } => {
                assert_eq!(attempts as usize, sent.len());
                assert_eq!(wait_millis, 500 * sent.len() as u64);
                assert_eq!(Err(error), *outcome);
                attempt
            }
        };
    }
    (sent, None)
}

#[test]
fn same_is_sent_at_each_attempt() {
    let (sent, outcome) = send("x", &[Err(1), Err(2), Err(3), Err(4), Ok(())]);
    assert_eq!(sent, vec!["x"; 4]);
    assert_eq!(outcome, Some(Err(4)));
}

#[test]
fn nothing_is_sent_after_a_success() {
    let (sent, outcome) = send("x", &[Err(1), Ok(()), Err(3), Ok(())]);
    assert_eq!(sent, vec!["x"; 2]);
    assert_eq!(outcome, Some(Ok(())));
    assert_eq!(send("x", &[Err(1)]).1, None);
}

#[test]
fn write_begins_only_with_what_it_needs() {
    assert!(matches!(begin_write::<u8, &str>(Err("no room")), WriteStep::Done(Err("no room"))));
    match begin_write::<u8, &str>(Ok(5)) {
        WriteStep::Send(attempt) => assert_eq!(*attempt.what(), 5),
        WriteStep::Done(_) => panic!("the write should be sent"),
    }
}
