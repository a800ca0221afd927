//! Requests that are made again when they fail.

use vstd::prelude::*;

verus! {

/// How often a failed request is made again.
pub const MAX_RETRIES: u32 = 3;

/// What follows an attempt at a request.
pub enum RetryStep<T, E> {
    /// The request is over, with this outcome.
    Done(Result<T, E>),
    /// The request is made again after a wait. This is the number of attempts that have failed,
    /// the last of them with this error.
    Again { attempts: u32, wait_millis: u64, error: E },
}

/// What follows an attempt, if this many have failed before it.
pub open spec fn step_after<T, E>(attempts: u32, outcome: Result<T, E>) -> RetryStep<T, E> {
    match outcome {
        Ok(value) => RetryStep::Done(Ok(value)),
        Err(error) => if attempts < MAX_RETRIES {
            RetryStep::Again {
                attempts: (attempts + 1) as u32,
                wait_millis: (500 * (attempts + 1)) as u64,
                error,
            }
        } else {
            RetryStep::Done(Err(error))
        },
    }
}

/// Decides what follows an attempt at a request. A success ends it. A failure is tried again
/// as long as fewer than [`MAX_RETRIES`] attempts have failed before, each time after a longer
/// wait.
pub fn with_retry<T, E>(attempts: u32, outcome: Result<T, E>) -> (step: RetryStep<T, E>)
    ensures
        step == step_after(attempts, outcome),
{
    match outcome {
        Ok(value) => RetryStep::Done(Ok(value)),
        Err(error) => {
            if attempts < MAX_RETRIES {
                let attempts: u32 = attempts + 1;
                RetryStep::Again { attempts, wait_millis: 500 * (attempts as u64), error }
            } else {
                RetryStep::Done(Err(error))
            }
        },
    }
}

/// What a request comes to, if these are the outcomes that its attempts would have: nothing as
/// long as a further attempt is due.
pub open spec fn request<T, E>(attempts: u32, outcomes: Seq<Result<T, E>>) -> Option<Result<T, E>>
    decreases outcomes.len(),
{
    if outcomes.len() == 0 {
        None
    } else {
        match step_after(attempts, outcomes[0]) {
            RetryStep::Done(result) => Some(result),
            RetryStep::Again { attempts, .. } => request(attempts, outcomes.drop_first()),
        }
    }
}

/// The waits between the attempts at a request, in milliseconds.
pub open spec fn waits<T, E>(attempts: u32, outcomes: Seq<Result<T, E>>) -> Seq<u64>
    decreases outcomes.len(),
{
    if outcomes.len() == 0 {
        Seq::empty()
    } else {
        match step_after(attempts, outcomes[0]) {
            RetryStep::Done(_) => Seq::empty(),
            RetryStep::Again { attempts, wait_millis, .. } => seq![wait_millis] + waits(
                attempts,
                outcomes.drop_first(),
            ),
        }
    }
}

proof fn lemma_first_success<T, E>(attempts: u32, outcomes: Seq<Result<T, E>>, k: int)
    requires
        attempts <= MAX_RETRIES,
        0 <= k < outcomes.len(),
        k + attempts <= MAX_RETRIES,
        outcomes[k] is Ok,
        forall|i: int| 0 <= i < k ==> outcomes[i] is Err,
    ensures
        request(attempts, outcomes) == Some(outcomes[k]),
    decreases k,
{
    if k > 0 {
        lemma_first_success((attempts + 1) as u32, outcomes.drop_first(), k - 1);
    }
}

/// A request comes to its first success, if that is among its first attempt and its retries.
pub proof fn law_first_success_is_returned<T, E>(outcomes: Seq<Result<T, E>>, k: int)
    requires
        0 <= k < outcomes.len(),
        k <= MAX_RETRIES,
        outcomes[k] is Ok,
        forall|i: int| 0 <= i < k ==> outcomes[i] is Err,
    ensures
        request(0, outcomes) == Some(outcomes[k]),
{
    lemma_first_success(0, outcomes, k);
}

proof fn lemma_last_failure<T, E>(attempts: u32, outcomes: Seq<Result<T, E>>)
    requires
        attempts <= MAX_RETRIES,
        forall|i: int|
            0 <= i < outcomes.len() && i + attempts <= MAX_RETRIES ==> outcomes[i] is Err,
    ensures
        request(attempts, outcomes) == (if outcomes.len() + attempts <= MAX_RETRIES {
            None
        } else {
            Some(outcomes[MAX_RETRIES - attempts])
        }),
    decreases outcomes.len(),
{
    if outcomes.len() > 0 && attempts < MAX_RETRIES {
        lemma_last_failure((attempts + 1) as u32, outcomes.drop_first());
    }
}

/// A request whose first attempt and retries all fail comes to the last of these failures, and
/// to nothing before that.
pub proof fn law_last_failure_is_returned<T, E>(outcomes: Seq<Result<T, E>>)
    requires
        forall|i: int| 0 <= i < outcomes.len() && i <= MAX_RETRIES ==> outcomes[i] is Err,
    ensures
        outcomes.len() <= MAX_RETRIES ==> request(0, outcomes) is None,
        outcomes.len() > MAX_RETRIES ==> request(0, outcomes) == Some(
            outcomes[MAX_RETRIES as int],
        ),
{
    lemma_last_failure(0, outcomes);
}

proof fn lemma_waits<T, E>(attempts: u32, outcomes: Seq<Result<T, E>>, k: int)
    requires
        attempts <= MAX_RETRIES,
        0 <= k <= outcomes.len(),
        forall|i: int| 0 <= i < k ==> outcomes[i] is Err,
        k < outcomes.len() ==> outcomes[k] is Ok,
    ensures
        waits(attempts, outcomes).len() == (if k + attempts < MAX_RETRIES {
            k
        } else {
            MAX_RETRIES - attempts
        }),
        forall|i: int|
            0 <= i < waits(attempts, outcomes).len() ==> #[trigger] waits(attempts, outcomes)[i]
                == 500 * (attempts + i + 1),
    decreases outcomes.len(),
{
    if k > 0 && attempts < MAX_RETRIES {
        let rest = outcomes.drop_first();
        lemma_waits((attempts + 1) as u32, rest, k - 1);
        let all = waits(attempts, outcomes);
        let later = waits((attempts + 1) as u32, rest);
        assert forall|i: int| 0 <= i < all.len() implies #[trigger] all[i] == 500 * (attempts + i
            + 1) by {
            if i > 0 {
                assert(all[i] == later[i - 1]);
            }
        }
    }
}

/// There is a wait after each failure but the one after the last retry. The first is half a
/// second, and each is half a second longer than the one before.
pub proof fn law_waits_grow<T, E>(outcomes: Seq<Result<T, E>>, failures: int)
    requires
        0 <= failures <= outcomes.len(),
        forall|i: int| 0 <= i < failures ==> outcomes[i] is Err,
        failures < outcomes.len() ==> outcomes[failures] is Ok,
    ensures
        waits(0, outcomes).len() == (if failures < MAX_RETRIES {
            failures
        } else {
            MAX_RETRIES as int
        }),
        forall|i: int|
            0 <= i < waits(0, outcomes).len() ==> #[trigger] waits(0, outcomes)[i] == 500 * (i + 1),
{
    lemma_waits(0, outcomes, failures);
}

proof fn lemma_after_failures<T, E>(
    attempts: u32,
    failures: Seq<Result<T, E>>,
    outcome: Result<T, E>,
)
    requires
        attempts + failures.len() <= MAX_RETRIES,
        forall|i: int| 0 <= i < failures.len() ==> failures[i] is Err,
    ensures
        request(attempts, failures.push(outcome)) == request(
            (attempts + failures.len()) as u32,
            seq![outcome],
        ),
    decreases failures.len(),
{
    if failures.len() == 0 {
        assert(failures.push(outcome) =~= seq![outcome]);
    } else {
        let rest = failures.drop_first();
        assert(failures.push(outcome).drop_first() =~= rest.push(outcome));
        lemma_after_failures((attempts + 1) as u32, rest, outcome);
    }
}

/// A request under way: what is asked for, and how many attempts have failed. Contracts see it as
/// the outcomes of its attempts.
pub struct Attempt<P, T, E> {
    what: P,
    attempts: u32,
    outcomes: Ghost<Seq<Result<T, E>>>,
}

/// What follows an attempt at a request under way.
pub enum AttemptStep<P, T, E> {
    /// The request is over, with this outcome.
    Done(Result<T, E>),
    /// The request is made again after a wait.
    Again { attempts: u32, wait_millis: u64, error: E, attempt: Attempt<P, T, E> },
}

impl<P, T, E> View for Attempt<P, T, E> {
    type V = Seq<Result<T, E>>;

    closed spec fn view(&self) -> Seq<Result<T, E>> {
        self.outcomes@
    }
}

impl<P, T, E> Attempt<P, T, E> {
    #[verifier::type_invariant]
    spec fn has_only_failed(self) -> bool {
        &&& self.attempts == self.outcomes@.len()
        &&& self.attempts <= MAX_RETRIES
        &&& forall|i: int| 0 <= i < self.outcomes@.len() ==> self.outcomes@[i] is Err
    }

    /// What is asked for.
    pub closed spec fn asked(self) -> P {
        self.what
    }

    /// Starts a request.
    pub fn new(what: P) -> (attempt: Attempt<P, T, E>)
        ensures
            attempt.asked() == what,
            attempt@ == Seq::<Result<T, E>>::empty(),
    {
        Attempt { what, attempts: 0, outcomes: Ghost(Seq::empty()) }
    }

    /// What is asked for, the same at each attempt.
    pub fn what(&self) -> (what: &P)
        ensures
            *what == self.asked(),
    {
        &self.what
    }

    /// Goes on with the outcome of an attempt: the request is over, or the same is asked for again.
    pub fn answered(self, outcome: Result<T, E>) -> (step: AttemptStep<P, T, E>)
        ensures
            match step {
                AttemptStep::Done(result) => {
                    &&& step_after(self@.len() as u32, outcome) == RetryStep::Done(result)
                    &&& request(0, self@.push(outcome)) == Some(result)
                },
                AttemptStep::Again { attempts, wait_millis, error, attempt } => {
                    &&& step_after(self@.len() as u32, outcome) == (RetryStep::<T, E>::Again {
                        attempts,
                        wait_millis,
                        error,
                    })
                    &&& attempt.asked() == self.asked()
                    &&& attempt@ == self@.push(outcome)
                    &&& request(0, attempt@) is None
                },
            },
            self@.len() <= MAX_RETRIES,
    {
        proof {
            use_type_invariant(&self);
            lemma_after_failures(0, self@, outcome);
            reveal_with_fuel(request, 2);
        }
        let ghost outcomes = self@.push(outcome);
        match with_retry(self.attempts, outcome) {
            RetryStep::Done(result) => AttemptStep::Done(result),
            RetryStep::Again { attempts, wait_millis, error } => AttemptStep::Again {
                attempts,
                wait_millis,
                error,
                attempt: Attempt { what: self.what, attempts, outcomes: Ghost(outcomes) },
            },
        }
    }
}

/// How many attempts a request makes, if these are the outcomes that its attempts would have.
pub open spec fn attempts_made<T, E>(attempts: u32, outcomes: Seq<Result<T, E>>) -> nat
    decreases outcomes.len(),
{
    if outcomes.len() == 0 {
        0
    } else {
        match step_after(attempts, outcomes[0]) {
            RetryStep::Done(_) => 1,
            RetryStep::Again { attempts, .. } => 1 + attempts_made(attempts, outcomes.drop_first()),
        }
    }
}

proof fn lemma_attempts_made<T, E>(attempts: u32, outcomes: Seq<Result<T, E>>, k: int)
    requires
        attempts <= MAX_RETRIES,
        0 <= k < outcomes.len(),
        k + attempts <= MAX_RETRIES,
        forall|i: int| 0 <= i < k ==> outcomes[i] is Err,
        outcomes[k] is Ok || k + attempts == MAX_RETRIES,
    ensures
        attempts_made(attempts, outcomes) == k + 1,
    decreases k,
{
    if k > 0 {
        lemma_attempts_made((attempts + 1) as u32, outcomes.drop_first(), k - 1);
    }
}

/// No attempt follows a success, and none follows the last retry: a request makes one attempt more
/// than it has failures before its first success, or one more than it has retries.
pub proof fn law_attempts_stop_at_the_first_success<T, E>(outcomes: Seq<Result<T, E>>, k: int)
    requires
        0 <= k < outcomes.len(),
        k <= MAX_RETRIES,
        forall|i: int| 0 <= i < k ==> outcomes[i] is Err,
        outcomes[k] is Ok || k == MAX_RETRIES,
    ensures
        attempts_made(0, outcomes) == k + 1,
{
    lemma_attempts_made(0, outcomes, k);
}

/// What a write comes to that needs something read before, if these are the outcomes that its
/// attempts would have.
pub open spec fn write_after<T, E>(read: Result<T, E>, writes: Seq<Result<(), E>>) -> Option<
    Result<(), E>,
> {
    match read {
        Ok(_) => request(0, writes),
        Err(error) => Some(Err(error)),
    }
}

/// How many writes are sent.
pub open spec fn writes_sent<T, E>(read: Result<T, E>, writes: Seq<Result<(), E>>) -> nat {
    match read {
        Ok(_) => attempts_made(0, writes),
        Err(_) => 0,
    }
}

/// How a write that needs something read before begins.
pub enum WriteStep<P, E> {
    /// It is over before anything is sent, with this outcome.
    Done(Result<(), E>),
    /// It is sent.
    Send(Attempt<P, (), E>),
}

/// Begins a write that needs something read before. Where that could not be had, the write is over
/// with the error and nothing is sent.
pub fn begin_write<P, E>(what: Result<P, E>) -> (step: WriteStep<P, E>)
    ensures
        match what {
            Ok(what) => {
                &&& step matches WriteStep::Send(attempt)
                &&& attempt.asked() == what
                &&& attempt@ == Seq::<Result<(), E>>::empty()
            },
            Err(error) => step == WriteStep::<P, E>::Done(Err(error)),
        },
        match step {
            WriteStep::Done(result) => forall|writes: Seq<Result<(), E>>| #[trigger]
                write_after(what, writes) == Some(result) && writes_sent(what, writes) == 0,
            WriteStep::Send(_) => forall|writes: Seq<Result<(), E>>| #[trigger]
                write_after(what, writes) == request(0, writes) && writes_sent(what, writes)
                    == attempts_made(0, writes),
        },
{
    match what {
        Ok(what) => WriteStep::Send(Attempt::new(what)),
        Err(error) => WriteStep::Done(Err(error)),
    }
}

/// Some outcome is a success.
pub open spec fn some_success<T, E>(outcomes: Seq<Result<T, E>>) -> bool {
    exists|i: int| 0 <= i < outcomes.len() && (#[trigger] outcomes[i]) is Ok
}

proof fn lemma_all_attempts<T, E>(outcomes: Seq<Result<T, E>>)
    requires
        outcomes.len() == MAX_RETRIES + 1,
    ensures
        request(0, outcomes) is Some,
        request(0, outcomes)->0 is Ok <==> some_success(outcomes),
        !some_success(outcomes) ==> request(0, outcomes) == Some(outcomes[MAX_RETRIES as int])
            && attempts_made(0, outcomes) == MAX_RETRIES + 1,
        forall|k: int|
            0 <= k < outcomes.len() && (#[trigger] outcomes[k]) is Ok && (forall|i: int|
                0 <= i < k ==> (#[trigger] outcomes[i]) is Err) ==> attempts_made(0, outcomes) == k
                + 1,
{
    assert forall|k: int|
        0 <= k < outcomes.len() && (#[trigger] outcomes[k]) is Ok && (forall|i: int|
            0 <= i < k ==> (#[trigger] outcomes[i]) is Err) implies attempts_made(0, outcomes) == k
        + 1 by {
        law_attempts_stop_at_the_first_success(outcomes, k);
    }
    if outcomes[0] is Ok {
        law_first_success_is_returned(outcomes, 0);
    } else if outcomes[1] is Ok {
        law_first_success_is_returned(outcomes, 1);
    } else if outcomes[2] is Ok {
        law_first_success_is_returned(outcomes, 2);
    } else if outcomes[3] is Ok {
        law_first_success_is_returned(outcomes, 3);
    } else {
        law_last_failure_is_returned(outcomes);
        law_attempts_stop_at_the_first_success(outcomes, 3);
    }
}

/// A write that needs something read before succeeds if and only if the read has and one of its
/// attempts does. Where the read has failed, the write comes to that error and nothing is sent.
/// Where all attempts fail, it comes to the last error, and none is left out. No attempt follows a
/// success.
pub proof fn law_write_needs_its_read<T, E>(read: Result<T, E>, writes: Seq<Result<(), E>>)
    requires
        writes.len() == MAX_RETRIES + 1,
    ensures
        write_after(read, writes) is Some,
        write_after(read, writes)->0 is Ok <==> read is Ok && some_success(writes),
        read matches Err(error) ==> write_after(read, writes) == Some(Err::<(), E>(error))
            && writes_sent(read, writes) == 0,
        read is Ok && !some_success(writes) ==> write_after(read, writes) == Some(
            writes[MAX_RETRIES as int],
        ) && writes_sent(read, writes) == MAX_RETRIES + 1,
        read is Ok ==> forall|k: int|
            0 <= k < writes.len() && (#[trigger] writes[k]) is Ok && (forall|i: int|
                0 <= i < k ==> (#[trigger] writes[i]) is Err) ==> writes_sent(read, writes) == k
                + 1,
{
    lemma_all_attempts(writes);
}

/// The same where the read is itself made again when it fails: reading and writing succeed
/// together if and only if some attempt at each does. Where no read succeeds, the outcome is the
/// last error of the reads and nothing is sent; where no write does, it is the last error of the
/// writes.
pub proof fn law_read_and_write<T, E>(reads: Seq<Result<T, E>>, writes: Seq<Result<(), E>>)
    requires
        reads.len() == MAX_RETRIES + 1,
        writes.len() == MAX_RETRIES + 1,
    ensures
        request(0, reads) is Some,
        ({
            let read = request(0, reads)->0;
            let written = write_after(read, writes);
            &&& written is Some
            &&& written->0 is Ok <==> some_success(reads) && some_success(writes)
            &&& !some_success(reads) ==> {
                &&& reads[MAX_RETRIES as int] matches Err(error)
                &&& written == Some(Err::<(), E>(error))
                &&& writes_sent(read, writes) == 0
            }
            &&& some_success(reads) && !some_success(writes) ==> {
                &&& written == Some(writes[MAX_RETRIES as int])
                &&& writes_sent(read, writes) == MAX_RETRIES + 1
            }
        }),
{
    lemma_all_attempts(reads);
    assert(!some_success(reads) ==> !(reads[MAX_RETRIES as int] is Ok));
    law_write_needs_its_read(request(0, reads)->0, writes);
}

/// A success is the outcome. A failure is tried again as long as fewer than three have gone before:
/// it counts as one more, the wait is half a second for each, and the error is kept. Any other
/// failure is the outcome.
pub proof fn law_what_follows_an_attempt<T, E>(attempts: u32, value: T, error: E)
    ensures
        step_after(attempts, Ok::<T, E>(value)) == RetryStep::<T, E>::Done(Ok(value)),
        attempts < 3 ==> {
            &&& step_after(attempts, Err::<T, E>(error)) matches RetryStep::Again {
                attempts: failed,
                wait_millis,
                error: kept,
            }
            &&& failed == attempts + 1
            &&& wait_millis == 500 * failed
            &&& kept == error
        },
        attempts >= 3 ==> step_after(attempts, Err::<T, E>(error)) == RetryStep::<T, E>::Done(
            Err(error),
        ),
{
}

} // verus!
