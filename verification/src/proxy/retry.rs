//! Retry and fallback for non-streaming requests.
//!
//! The first candidate is tried up to three times, with a pause of one and
//! of two seconds before the second and the third attempt. When all three
//! attempts fail with a retryable status, the second candidate, if there is
//! one, is tried once. Any other failure ends the sequence at once.
//!
//! [`RetryController`] makes these decisions and records the failed attempts.
//! It neither sends a request nor sleeps: the caller performs each
//! [`RetryStep`] and reports what came of it.

use crate::text::{decimal_digits, decimal_text, str_eq};
use vstd::prelude::*;

verus! {

/// Number of retries on the first candidate, after its first attempt.
pub const MAX_RETRIES: u32 = 2;

/// A failed attempt.
#[derive(Debug, Clone)]
pub struct AttemptRecord {
    pub provider_name: String,
    pub status_code: u16,
}

/// A candidate, as far as the retry sequence needs to know it.
#[derive(Debug, Clone)]
pub struct CandidateInfo {
    pub name: String,
}

/// An error that carries an HTTP status code.
pub trait HasStatusCode {
    fn status_code(&self) -> u16;
}

/// Outcome of a whole retry sequence.
pub struct RetryOutcome<T, E> {
    pub result: Result<T, E>,
}

/// Whether a status code denotes a transient upstream failure.
pub open spec fn retryable_status(status_code: u16) -> bool {
    status_code == 500 || status_code == 502 || status_code == 503 || status_code == 504
}

/// Whether an HTTP status code should trigger a retry.
pub fn is_retryable(status_code: u16) -> (r: bool)
    ensures
        r == retryable_status(status_code),
{
    status_code == 500 || status_code == 502 || status_code == 503 || status_code == 504
}

/// The provider names of the attempts, each once, in order of first
/// appearance.
pub open spec fn distinct_names(attempts: Seq<AttemptRecord>) -> Seq<Seq<char>>
    decreases attempts.len(),
{
    if attempts.len() == 0 {
        Seq::empty()
    } else {
        let before = distinct_names(attempts.drop_last());
        if before.contains(attempts.last().provider_name@) {
            before
        } else {
            before.push(attempts.last().provider_name@)
        }
    }
}

/// The number of attempts made on the provider `name`.
pub open spec fn attempts_on(attempts: Seq<AttemptRecord>, name: Seq<char>) -> nat
    decreases attempts.len(),
{
    if attempts.len() == 0 {
        0
    } else {
        let before = attempts_on(attempts.drop_last(), name);
        if attempts.last().provider_name@ == name {
            before + 1
        } else {
            before
        }
    }
}

/// One entry of the header: the count, a slash, the provider name.
pub open spec fn header_entry(count: nat, name: Seq<char>) -> Seq<char> {
    decimal_digits(count) + "/"@ + name
}

/// The entries for the first `upto` names, joined by a comma and a space.
pub open spec fn joined_entries(
    attempts: Seq<AttemptRecord>,
    names: Seq<Seq<char>>,
    upto: int,
) -> Seq<char>
    decreases upto,
{
    if upto <= 0 {
        Seq::empty()
    } else if upto == 1 {
        header_entry(attempts_on(attempts, names[0]), names[0])
    } else {
        joined_entries(attempts, names, upto - 1) + ", "@ + header_entry(
            attempts_on(attempts, names[upto - 1]),
            names[upto - 1],
        )
    }
}

/// The value of the retries header: for each provider the number of its
/// failed attempts, providers in order of first appearance.
pub open spec fn retries_header(attempts: Seq<AttemptRecord>) -> Seq<char> {
    joined_entries(attempts, distinct_names(attempts), distinct_names(attempts).len() as int)
}

/// No provider has more attempts than there are attempts.
pub proof fn lemma_attempts_on_bounded(attempts: Seq<AttemptRecord>, name: Seq<char>)
    ensures
        attempts_on(attempts, name) <= attempts.len(),
    decreases attempts.len(),
{
    if attempts.len() > 0 {
        lemma_attempts_on_bounded(attempts.drop_last(), name);
    }
}

/// Formats the attempts as the value of the retries header, such as
/// `2/alpha, 1/beta`. Without attempts there is no header.
pub fn format_retries_header(attempts: &[AttemptRecord]) -> (r: Option<String>)
    ensures
        attempts@.len() == 0 <==> r is None,
        r matches Some(text) ==> text@ == retries_header(attempts@),
{
    if attempts.len() == 0 {
        return None;
    }
    let mut firsts: Vec<usize> = Vec::new();
    let mut counts: Vec<usize> = Vec::new();
    let mut i: usize = 0;
    assert(attempts@.take(0) =~= Seq::<AttemptRecord>::empty());
    while i < attempts.len()
        invariant
            i <= attempts@.len(),
            firsts@.len() == counts@.len(),
            firsts@.len() == distinct_names(attempts@.take(i as int)).len(),
            forall|k: int|
                0 <= k < firsts@.len() ==> #[trigger] firsts@[k] < i && attempts@[firsts@[k] as int].provider_name@
                    == distinct_names(attempts@.take(i as int))[k],
            forall|k: int|
                0 <= k < counts@.len() ==> #[trigger] counts@[k] == attempts_on(
                    attempts@.take(i as int),
                    distinct_names(attempts@.take(i as int))[k],
                ),
        decreases attempts@.len() - i,
    {
        let ghost before = attempts@.take(i as int);
        let ghost after = attempts@.take(i + 1);
        let ghost names = distinct_names(before);
        let ghost name = attempts@[i as int].provider_name@;
        proof {
            assert(after.drop_last() =~= before);
            assert(after.last() == attempts@[i as int]);
        }
        let mut found: Option<usize> = None;
        let mut k: usize = 0;
        while k < firsts.len() && found.is_none()
            invariant
                k <= firsts@.len(),
                i < attempts@.len(),
                firsts@.len() == names.len(),
                name == attempts@[i as int].provider_name@,
                forall|j: int|
                    0 <= j < firsts@.len() ==> #[trigger] firsts@[j] < i && attempts@[firsts@[j] as int].provider_name@
                        == names[j],
                match found {
                    Some(at) => at < firsts@.len() && names[at as int] == name,
                    None => forall|j: int| 0 <= j < k ==> names[j] != name,
                },
            decreases firsts@.len() - k + (if found is None { 1int } else { 0int }),
        {
            if str_eq(
                attempts[firsts[k]].provider_name.as_str(),
                attempts[i].provider_name.as_str(),
            ) {
                found = Some(k);
            } else {
                k += 1;
            }
        }
        match found {
            Some(at) => {
                proof {
                    lemma_attempts_on_bounded(before, names[at as int]);
                    lemma_distinct_names_differ(before);
                    assert(names.contains(name));
                    assert(distinct_names(after) == names);
                }
                let bumped = counts[at] + 1;
                counts.set(at, bumped);
            },
            None => {
                proof {
                    assert(!names.contains(name));
                    assert(distinct_names(after) == names.push(name));
                    lemma_absent_name_has_no_attempts(before, name);
                }
                firsts.push(i);
                counts.push(1);
            },
        }
        i += 1;
    }
    assert(attempts@.take(i as int) =~= attempts@);
    let ghost names = distinct_names(attempts@);
    let mut text = String::new();
    let mut k: usize = 0;
    while k < firsts.len()
        invariant
            k <= firsts@.len(),
            firsts@.len() == counts@.len(),
            firsts@.len() == names.len(),
            names == distinct_names(attempts@),
            forall|j: int|
                0 <= j < firsts@.len() ==> #[trigger] firsts@[j] < attempts@.len()
                    && attempts@[firsts@[j] as int].provider_name@ == names[j],
            forall|j: int|
                0 <= j < counts@.len() ==> #[trigger] counts@[j] == attempts_on(attempts@, names[j]),
            text@ == joined_entries(attempts@, names, k as int),
        decreases firsts@.len() - k,
    {
        if k > 0 {
            text.append(", ");
        }
        let digits = decimal_text(counts[k] as u128);
        text.append(digits.as_str());
        text.append("/");
        text.append(attempts[firsts[k]].provider_name.as_str());
        proof {
            let entry = header_entry(attempts_on(attempts@, names[k as int]), names[k as int]);
            if k == 0 {
                assert(text@ =~= entry);
            } else {
                assert(text@ =~= joined_entries(attempts@, names, k as int) + ", "@ + entry);
            }
        }
        k += 1;
    }
    Some(text)
}

/// No name occurs twice among the distinct names.
pub proof fn lemma_distinct_names_differ(attempts: Seq<AttemptRecord>)
    ensures
        forall|a: int, b: int|
            0 <= a < b < distinct_names(attempts).len() ==> distinct_names(attempts)[a]
                != distinct_names(attempts)[b],
    decreases attempts.len(),
{
    if attempts.len() > 0 {
        lemma_distinct_names_differ(attempts.drop_last());
        let before = distinct_names(attempts.drop_last());
        let last = attempts.last().provider_name@;
        let names = distinct_names(attempts);
        assert forall|a: int, b: int| 0 <= a < b < names.len() implies names[a] != names[b] by {
            if !before.contains(last) {
                assert(names == before.push(last));
                if b == before.len() {
                    assert(names[a] == before[a]);
                    assert(before.contains(before[a]));
                } else {
                    assert(names[a] == before[a]);
                    assert(names[b] == before[b]);
                }
            }
        }
    }
}

/// A name that is not among the distinct names has no attempts.
proof fn lemma_absent_name_has_no_attempts(attempts: Seq<AttemptRecord>, name: Seq<char>)
    requires
        !distinct_names(attempts).contains(name),
    ensures
        attempts_on(attempts, name) == 0,
    decreases attempts.len(),
{
    if attempts.len() > 0 {
        let before = distinct_names(attempts.drop_last());
        let last = attempts.last().provider_name@;
        if before.contains(last) {
            assert(last != name);
        } else {
            assert(before.push(last)[before.len() as int] == last);
            assert(last != name);
            if before.contains(name) {
                let k = choose|k: int| 0 <= k < before.len() && before[k] == name;
                assert(before.push(last)[k] == name);
            }
        }
        lemma_absent_name_has_no_attempts(attempts.drop_last(), name);
    }
}

/// Where a retry sequence stands.
#[derive(Debug, Clone, Copy, PartialEq, Eq, Structural)]
pub enum RetryPhase {
    /// An attempt on the first candidate is under way.
    Primary,
    /// The attempt on the second candidate is under way.
    Fallback,
    /// The sequence has ended.
    Finished,
}

/// What the caller has to do next.
#[derive(Debug, Clone, Copy, PartialEq, Eq, Structural)]
pub enum RetryStep {
    /// Wait `backoff_secs` seconds, then send the request to the candidate
    /// at index `candidate` and report the outcome.
    Dispatch { candidate: usize, backoff_secs: u64 },
    /// Return the outcome that was just reported.
    Finish,
}

/// What came of one attempt.
#[derive(Debug, Clone, Copy, PartialEq, Eq, Structural)]
pub enum AttemptOutcome {
    /// The provider answered with success.
    Success,
    /// The attempt failed with this status code.
    Failure(u16),
}

/// `after` is `before` with one more record, for `name` and `status`.
pub open spec fn appended(
    before: Seq<AttemptRecord>,
    after: Seq<AttemptRecord>,
    name: Seq<char>,
    status: u16,
) -> bool {
    &&& after.len() == before.len() + 1
    &&& after.drop_last() == before
    &&& after.last().status_code == status
    &&& after.last().provider_name@ == name
}

/// The decisions of one retry sequence.
#[derive(Debug, Clone, Copy, PartialEq, Eq, Structural)]
pub struct RetryController {
    /// Number of candidates.
    pub candidates: usize,
    /// Attempts on the first candidate that have been started.
    pub attempts_started: u32,
    /// Where the sequence stands.
    pub phase: RetryPhase,
}

/// The pause before the attempt with the given number on the first
/// candidate, in seconds. The first attempt has number 1.
pub open spec fn backoff_before(attempt: int) -> u64 {
    if attempt <= 1 {
        0
    } else if attempt == 2 {
        1
    } else if attempt == 3 {
        2
    } else {
        4
    }
}

impl RetryController {
    /// A sequence that has just started: the first attempt on the first
    /// candidate is under way.
    pub open spec fn started(candidates: usize) -> RetryController {
        RetryController { candidates, attempts_started: 1, phase: RetryPhase::Primary }
    }

    /// The attempt under way is one the schedule allows.
    pub open spec fn well_formed(self) -> bool {
        &&& self.candidates >= 1
        &&& 1 <= self.attempts_started <= MAX_RETRIES + 1
        &&& self.phase == RetryPhase::Fallback ==> self.candidates >= 2 && self.attempts_started
            == MAX_RETRIES + 1
    }

    /// The candidate that the attempt under way goes to.
    pub open spec fn current_candidate(self) -> int {
        if self.phase == RetryPhase::Fallback {
            1
        } else {
            0
        }
    }

    /// Whether the outcome of the attempt under way is recorded: every
    /// failure is, no success is.
    pub open spec fn records(self, outcome: AttemptOutcome) -> bool {
        self.phase != RetryPhase::Finished && outcome is Failure
    }

    /// The step that follows the outcome of the attempt under way.
    pub open spec fn step_after(self, outcome: AttemptOutcome) -> RetryStep {
        match (self.phase, outcome) {
            (RetryPhase::Primary, AttemptOutcome::Failure(status)) => if !retryable_status(status) {
                RetryStep::Finish
            } else if self.attempts_started <= MAX_RETRIES {
                RetryStep::Dispatch {
                    candidate: 0,
                    backoff_secs: backoff_before(self.attempts_started + 1),
                }
            } else if self.candidates > 1 {
                RetryStep::Dispatch { candidate: 1, backoff_secs: 0 }
            } else {
                RetryStep::Finish
            },
            _ => RetryStep::Finish,
        }
    }

    /// The sequence after the outcome of the attempt under way.
    pub open spec fn after(self, outcome: AttemptOutcome) -> RetryController {
        match self.step_after(outcome) {
            RetryStep::Dispatch { candidate, .. } => if candidate == 0 {
                RetryController { attempts_started: (self.attempts_started + 1) as u32, ..self }
            } else {
                RetryController { phase: RetryPhase::Fallback, ..self }
            },
            RetryStep::Finish => RetryController { phase: RetryPhase::Finished, ..self },
        }
    }

    /// Starts a sequence over `candidates` candidates. The first step is to
    /// send the request to the first candidate, without a pause.
    pub fn start(candidates: usize) -> (r: (RetryController, RetryStep))
        requires
            candidates >= 1,
        ensures
            r.0 == RetryController::started(candidates),
            r.0.well_formed(),
            r.1 == (RetryStep::Dispatch { candidate: 0, backoff_secs: 0 }),
    {
        (
            RetryController { candidates, attempts_started: 1, phase: RetryPhase::Primary },
            RetryStep::Dispatch { candidate: 0, backoff_secs: 0 },
        )
    }

    /// Whether the sequence has ended.
    pub fn is_finished(&self) -> (r: bool)
        ensures
            r == (self.phase == RetryPhase::Finished),
    {
        match self.phase {
            RetryPhase::Finished => true,
            _ => false,
        }
    }

    /// Takes the outcome of the attempt under way. A failure is appended to
    /// `attempts`, under the name of the candidate it was made on. The step
    /// returned says how the sequence goes on.
    pub fn on_outcome(
        &mut self,
        outcome: AttemptOutcome,
        names: &[CandidateInfo],
        attempts: &mut Vec<AttemptRecord>,
    ) -> (r: RetryStep)
        requires
            old(self).well_formed(),
            old(self).phase != RetryPhase::Finished,
            names@.len() == old(self).candidates,
        ensures
            r == old(self).step_after(outcome),
            *final(self) == old(self).after(outcome),
            final(self).well_formed(),
            r matches RetryStep::Dispatch { candidate, .. } ==> candidate < names@.len(),
            final(attempts)@.len() == old(attempts)@.len() + if old(self).records(outcome) {
                1int
            } else {
                0int
            },
            match outcome {
                AttemptOutcome::Success => final(attempts)@ == old(attempts)@,
                AttemptOutcome::Failure(status) => appended(
                    old(attempts)@,
                    final(attempts)@,
                    names@[old(self).current_candidate()].name@,
                    status,
                ),
            },
    {
        match outcome {
            AttemptOutcome::Success => {
                self.phase = RetryPhase::Finished;
                RetryStep::Finish
            },
            AttemptOutcome::Failure(status) => {
                let ghost before = attempts@;
                match self.phase {
                    RetryPhase::Fallback => {
                        attempts.push(
                            AttemptRecord {
                                provider_name: names[1].name.clone(),
                                status_code: status,
                            },
                        );
                        assert(attempts@.drop_last() =~= before);
                        self.phase = RetryPhase::Finished;
                        RetryStep::Finish
                    },
                    _ => {
                        attempts.push(
                            AttemptRecord {
                                provider_name: names[0].name.clone(),
                                status_code: status,
                            },
                        );
                        assert(attempts@.drop_last() =~= before);
                        if !is_retryable(status) {
                            self.phase = RetryPhase::Finished;
                            RetryStep::Finish
                        } else if self.attempts_started <= MAX_RETRIES {
                            self.attempts_started += 1;
                            RetryStep::Dispatch {
                                candidate: 0,
                                backoff_secs: backoff_secs(self.attempts_started),
                            }
                        } else if self.candidates > 1 {
                            self.phase = RetryPhase::Fallback;
                            RetryStep::Dispatch { candidate: 1, backoff_secs: 0 }
                        } else {
                            self.phase = RetryPhase::Finished;
                            RetryStep::Finish
                        }
                    },
                }
            },
        }
    }
}

/// The pause before the attempt with the given number on the first
/// candidate, in seconds: none before the first, then 1, 2 and 4.
pub fn backoff_secs(attempt: u32) -> (r: u64)
    ensures
        r == backoff_before(attempt as int),
{
    if attempt <= 1 {
        0
    } else if attempt == 2 {
        1
    } else if attempt == 3 {
        2
    } else {
        4
    }
}

/// What a sequence has done by the time it has taken some outcomes.
pub ghost struct Replay {
    /// The sequence after the outcomes.
    pub state: RetryController,
    /// How many outcomes it took before it ended.
    pub observed: nat,
    /// How many of those were failures.
    pub failures: nat,
    /// How many attempts it recorded.
    pub recorded: nat,
    /// How many requests it had sent to the second candidate.
    pub fallbacks: nat,
}

/// Plays a sequence against the outcomes that its attempts meet, one after
/// the other, until it ends or the outcomes run out.
pub open spec fn replay(state: RetryController, outcomes: Seq<AttemptOutcome>) -> Replay
    decreases outcomes.len(),
{
    if outcomes.len() == 0 || state.phase == RetryPhase::Finished {
        Replay { state, observed: 0, failures: 0, recorded: 0, fallbacks: 0 }
    } else {
        let rest = replay(state.after(outcomes[0]), outcomes.skip(1));
        Replay {
            state: rest.state,
            observed: rest.observed + 1,
            failures: rest.failures + if outcomes[0] is Failure {
                1nat
            } else {
                0nat
            },
            recorded: rest.recorded + if state.records(outcomes[0]) {
                1nat
            } else {
                0nat
            },
            fallbacks: rest.fallbacks + if state.step_after(outcomes[0]) matches RetryStep::Dispatch {
                candidate,
                ..
            } && candidate == 1 {
                1nat
            } else {
                0nat
            },
        }
    }
}

/// Whatever the attempts meet, the number of recorded attempts is the number
/// of failures observed.
pub proof fn lemma_records_are_the_observed_failures(
    state: RetryController,
    outcomes: Seq<AttemptOutcome>,
)
    ensures
        replay(state, outcomes).recorded == replay(state, outcomes).failures,
    decreases outcomes.len(),
{
    if outcomes.len() > 0 && state.phase != RetryPhase::Finished {
        lemma_records_are_the_observed_failures(state.after(outcomes[0]), outcomes.skip(1));
    }
}

/// A failure that is not retryable ends the sequence at once: one attempt is
/// recorded, and the second candidate is not tried.
pub proof fn lemma_non_retryable_ends_at_once(
    candidates: usize,
    status: u16,
    later: Seq<AttemptOutcome>,
)
    requires
        candidates >= 1,
        !retryable_status(status),
    ensures
        ({
            let played = replay(
                RetryController::started(candidates),
                seq![AttemptOutcome::Failure(status)] + later,
            );
            &&& played.state.phase == RetryPhase::Finished
            &&& played.observed == 1
            &&& played.recorded == 1
            &&& played.fallbacks == 0
        }),
{
    let outcomes = seq![AttemptOutcome::Failure(status)] + later;
    let state = RetryController::started(candidates);
    assert(outcomes[0] == AttemptOutcome::Failure(status));
    let next = state.after(outcomes[0]);
    assert(next.phase == RetryPhase::Finished);
    assert(replay(next, outcomes.skip(1)).observed == 0);
}

/// A sequence makes at most three attempts on the first candidate and one on
/// the second, and it tries the second only after three retryable failures
/// of the first.
pub proof fn lemma_schedule_is_bounded(state: RetryController, outcomes: Seq<AttemptOutcome>)
    requires
        state.well_formed(),
    ensures
        replay(state, outcomes).state.well_formed(),
        replay(state, outcomes).fallbacks <= 1,
        state.phase == RetryPhase::Fallback ==> replay(state, outcomes).fallbacks == 0
            && replay(state, outcomes).observed <= 1,
        state.phase == RetryPhase::Primary ==> replay(state, outcomes).observed + state.attempts_started
            <= MAX_RETRIES + 3,
        state.phase == RetryPhase::Primary && replay(state, outcomes).fallbacks == 1 ==> replay(
            state,
            outcomes,
        ).failures + state.attempts_started >= MAX_RETRIES + 2,
    decreases outcomes.len(),
{
    if outcomes.len() > 0 && state.phase != RetryPhase::Finished {
        lemma_schedule_is_bounded(state.after(outcomes[0]), outcomes.skip(1));
    }
}

} // verus!
