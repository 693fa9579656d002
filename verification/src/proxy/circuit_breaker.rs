//! Per-provider circuit breaker.
//!
//! A breaker is `Closed` (requests flow, consecutive failures are counted),
//! `Open` (requests are rejected until a timeout has passed) or `HalfOpen`
//! (one probe request is let through to test the provider).
//!
//! The breaker does not read a clock: every operation that depends on time
//! takes the current time in milliseconds on a monotonic clock.
//!
//! The model of a breaker is a [`BreakerModel`]; every operation is specified
//! as a transition on it. [`lemma_reachable_states_are_well_formed`] and
//! [`lemma_single_probe_permit`] state what holds along every sequence of
//! operations.

use vstd::prelude::*;

verus! {

/// Number of consecutive failures that trips the circuit.
pub const FAILURE_THRESHOLD: u32 = 3;

/// Time the circuit stays open before a probe is allowed, in milliseconds.
pub const OPEN_DURATION_MS: u64 = 30000;

/// The three states of a circuit breaker.
#[derive(Debug, Clone, Copy, PartialEq, Eq, Structural)]
pub enum CircuitState {
    /// Requests flow through, failures are counted.
    Closed,
    /// Requests are rejected until the timeout has passed.
    Open,
    /// One probe request is allowed through.
    HalfOpen,
}

impl CircuitState {
    /// Lowercase name of the state.
    pub fn as_str(&self) -> (r: &'static str)
        ensures
            r@ == match *self {
                CircuitState::Closed => "closed"@,
                CircuitState::Open => "open"@,
                CircuitState::HalfOpen => "half_open"@,
            },
    {
        match self {
            CircuitState::Closed => "closed",
            CircuitState::Open => "open",
            CircuitState::HalfOpen => "half_open",
        }
    }
}

/// Outcome of a probe request.
#[derive(Debug, Clone, Copy, PartialEq, Eq, Structural)]
pub enum ProbeResult {
    /// No probe has completed yet.
    Pending,
    /// The probe succeeded; the circuit is closed.
    Success,
    /// The probe failed; the circuit is open again.
    Failed,
}

/// Result of checking a breaker for one request.
#[derive(Debug, Clone, Copy, PartialEq, Eq, Structural)]
pub enum CheckResult {
    /// The circuit is closed: the request may proceed.
    Allowed,
    /// The caller holds the probe permit.
    ProbePermit,
    /// Another probe is in flight: the caller should wait for its outcome.
    WaitForProbe,
    /// The circuit is open and the timeout has not passed.
    Rejected,
}

/// Kind of permit granted to a request.
#[derive(Debug, Clone, Copy, PartialEq, Eq, Structural)]
pub enum PermitType {
    /// A request through a closed circuit.
    Normal,
    /// The probe request through a half-open circuit.
    Probe,
}

/// The last error recorded by a breaker.
#[derive(Debug, Clone, PartialEq, Eq)]
pub struct LastError {
    /// Category of the error, such as `5xx` or `timeout`.
    pub error_type: String,
    /// Human-readable message.
    pub message: String,
}

/// The model of a breaker.
pub ghost struct BreakerModel {
    pub state: CircuitState,
    pub failure_count: u32,
    pub opened_at: Option<u64>,
    pub last_failure_time: Option<u64>,
    pub last_success_time: Option<u64>,
    /// Category and message of the last error.
    pub last_error: Option<(Seq<char>, Seq<char>)>,
    pub trip_count: u32,
    pub probe_in_flight: bool,
}

/// One operation on a breaker.
pub ghost enum BreakerOp {
    /// A permit check at time `now`.
    Check { now: u64 },
    /// A failure of a request that held a normal permit.
    Failure { now: u64, error_type: Seq<char>, message: Seq<char> },
    /// A success of a request that held a normal permit.
    Success { now: u64 },
    /// The probe succeeded.
    ProbeSuccess { now: u64 },
    /// The probe failed.
    ProbeFailure { now: u64, error_type: Seq<char>, message: Seq<char> },
}

impl BreakerModel {
    /// A new breaker: closed, nothing counted.
    pub open spec fn initial() -> BreakerModel {
        BreakerModel {
            state: CircuitState::Closed,
            failure_count: 0,
            opened_at: None,
            last_failure_time: None,
            last_success_time: None,
            last_error: None,
            trip_count: 0,
            probe_in_flight: false,
        }
    }

    /// An open or half-open breaker knows when it opened; a probe is in
    /// flight only while the breaker is half-open; a closed breaker has
    /// counted fewer failures than trip it.
    pub open spec fn well_formed(self) -> bool {
        &&& self.state != CircuitState::Closed ==> self.opened_at is Some
        &&& self.state != CircuitState::HalfOpen ==> !self.probe_in_flight
        &&& self.state == CircuitState::Closed ==> self.failure_count < FAILURE_THRESHOLD
    }

    /// Whether the open timeout has passed at `now`.
    pub open spec fn timeout_passed(self, now: u64) -> bool {
        match self.opened_at {
            Some(opened) => now >= opened && now - opened >= OPEN_DURATION_MS,
            None => false,
        }
    }

    /// What a permit check at `now` answers.
    pub open spec fn check_result(self, now: u64) -> CheckResult {
        match self.state {
            CircuitState::Closed => CheckResult::Allowed,
            CircuitState::Open => if self.timeout_passed(now) {
                CheckResult::ProbePermit
            } else {
                CheckResult::Rejected
            },
            CircuitState::HalfOpen => if self.probe_in_flight {
                CheckResult::WaitForProbe
            } else {
                CheckResult::ProbePermit
            },
        }
    }

    /// The breaker after a permit check at `now`: an open circuit whose timeout
    /// has passed becomes half-open, and a granted probe permit is marked as
    /// in flight.
    pub open spec fn after_check(self, now: u64) -> BreakerModel {
        match self.check_result(now) {
            CheckResult::ProbePermit => BreakerModel {
                state: CircuitState::HalfOpen,
                probe_in_flight: true,
                ..self
            },
            _ => self,
        }
    }

    /// The breaker after the failure of an ordinary request at `now`. The
    /// error is remembered. A closed breaker counts one more consecutive
    /// failure, and at the threshold it opens, with `now` as its opening
    /// time. A breaker that is open or half-open stays as it is: only the
    /// outcome of the probe moves it.
    pub open spec fn after_failure(
        self,
        now: u64,
        error_type: Seq<char>,
        message: Seq<char>,
    ) -> BreakerModel {
        let noted = BreakerModel {
            last_failure_time: Some(now),
            last_error: Some((error_type, message)),
            ..self
        };
        if self.state != CircuitState::Closed {
            noted
        } else if self.failure_count + 1 >= FAILURE_THRESHOLD {
            BreakerModel {
                state: CircuitState::Open,
                failure_count: (self.failure_count + 1) as u32,
                opened_at: Some(now),
                trip_count: (self.trip_count + 1) as u32,
                ..noted
            }
        } else {
            BreakerModel { failure_count: (self.failure_count + 1) as u32, ..noted }
        }
    }

    /// The breaker after a success at `now`: no consecutive failures.
    pub open spec fn after_success(self, now: u64) -> BreakerModel {
        BreakerModel { failure_count: 0, last_success_time: Some(now), ..self }
    }

    /// The breaker after a successful probe: closed.
    pub open spec fn after_probe_success(self, now: u64) -> BreakerModel {
        BreakerModel {
            state: CircuitState::Closed,
            failure_count: 0,
            probe_in_flight: false,
            last_success_time: Some(now),
            ..self
        }
    }

    /// The breaker after a failed probe: open, with a fresh timeout.
    pub open spec fn after_probe_failure(
        self,
        now: u64,
        error_type: Seq<char>,
        message: Seq<char>,
    ) -> BreakerModel {
        BreakerModel {
            state: CircuitState::Open,
            opened_at: Some(now),
            probe_in_flight: false,
            last_error: Some((error_type, message)),
            ..self
        }
    }

    /// The breaker after one operation.
    pub open spec fn step(self, op: BreakerOp) -> BreakerModel {
        match op {
            BreakerOp::Check { now } => self.after_check(now),
            BreakerOp::Failure { now, error_type, message } => self.after_failure(
                now,
                error_type,
                message,
            ),
            BreakerOp::Success { now } => self.after_success(now),
            BreakerOp::ProbeSuccess { now } => self.after_probe_success(now),
            BreakerOp::ProbeFailure { now, error_type, message } => self.after_probe_failure(
                now,
                error_type,
                message,
            ),
        }
    }

    /// Whether the operation hands out the probe permit.
    pub open spec fn grants_probe(self, op: BreakerOp) -> bool {
        match op {
            BreakerOp::Check { now } => self.check_result(now) == CheckResult::ProbePermit,
            _ => false,
        }
    }
}

/// The breaker after a sequence of operations on a new one.
pub open spec fn run(ops: Seq<BreakerOp>) -> BreakerModel
    decreases ops.len(),
{
    if ops.len() == 0 {
        BreakerModel::initial()
    } else {
        run(ops.drop_last()).step(ops.last())
    }
}

/// The number of probe permits handed out and not yet resolved after a
/// sequence of operations on a new breaker.
pub open spec fn probe_holders(ops: Seq<BreakerOp>) -> int
    decreases ops.len(),
{
    if ops.len() == 0 {
        0
    } else {
        let before = probe_holders(ops.drop_last());
        let state = run(ops.drop_last());
        match ops.last() {
            BreakerOp::ProbeSuccess { .. } => before - 1,
            BreakerOp::ProbeFailure { .. } => before - 1,
            op => if state.grants_probe(op) {
                before + 1
            } else {
                before
            },
        }
    }
}

/// The callers keep to the protocol: a probe outcome is reported only by a
/// holder of the probe permit.
pub open spec fn disciplined(ops: Seq<BreakerOp>) -> bool
    decreases ops.len(),
{
    ops.len() == 0 || (disciplined(ops.drop_last()) && match ops.last() {
        BreakerOp::ProbeSuccess { .. } => probe_holders(ops.drop_last()) >= 1,
        BreakerOp::ProbeFailure { .. } => probe_holders(ops.drop_last()) >= 1,
        _ => true,
    })
}

/// Every operation keeps a well-formed breaker well-formed.
pub proof fn lemma_step_keeps_well_formed(m: BreakerModel, op: BreakerOp)
    requires
        m.well_formed(),
    ensures
        m.step(op).well_formed(),
{
}

/// Every state reached from a new breaker is well-formed: an open one knows
/// when it opened, a closed one has no probe in flight and has counted
/// fewer failures than trip it, and a probe is in flight only in a
/// half-open one.
pub proof fn lemma_reachable_states_are_well_formed(ops: Seq<BreakerOp>)
    ensures
        run(ops).well_formed(),
        run(ops).state == CircuitState::Open ==> run(ops).opened_at is Some,
        run(ops).state == CircuitState::Closed ==> !run(ops).probe_in_flight,
        run(ops).probe_in_flight ==> run(ops).state == CircuitState::HalfOpen,
        run(ops).failure_count >= FAILURE_THRESHOLD ==> run(ops).state != CircuitState::Closed,
    decreases ops.len(),
{
    if ops.len() > 0 {
        lemma_reachable_states_are_well_formed(ops.drop_last());
        lemma_step_keeps_well_formed(run(ops.drop_last()), ops.last());
    }
}

/// The probe permit is handed out only while no probe is in flight, and
/// from then on one is: the next check hands out no other, nor does a check
/// after the failure of an ordinary request.
pub proof fn lemma_probe_granted_only_when_none_in_flight(ops: Seq<BreakerOp>, op: BreakerOp)
    requires
        run(ops).grants_probe(op),
    ensures
        !run(ops).probe_in_flight,
        run(ops).step(op).probe_in_flight,
        run(ops).step(op).state == CircuitState::HalfOpen,
        forall|later: BreakerOp| !(#[trigger] run(ops).step(op).grants_probe(later)),
        forall|now: u64, error_type: Seq<char>, message: Seq<char>, later: BreakerOp|
            !(#[trigger] run(ops).step(op).after_failure(now, error_type, message).grants_probe(
                later,
            )),
{
    lemma_reachable_states_are_well_formed(ops);
}

/// As long as the callers keep to the protocol, at most one probe permit is
/// held at any time, and one is held exactly while a probe is in flight.
pub proof fn lemma_single_probe_permit(ops: Seq<BreakerOp>)
    requires
        disciplined(ops),
    ensures
        0 <= probe_holders(ops) <= 1,
        probe_holders(ops) == 1 <==> run(ops).probe_in_flight,
        run(ops).probe_in_flight ==> run(ops).state == CircuitState::HalfOpen,
    decreases ops.len(),
{
    if ops.len() > 0 {
        lemma_single_probe_permit(ops.drop_last());
    }
}

/// The state machine of one circuit breaker.
#[derive(Debug)]
pub struct CircuitBreakerInner {
    state: CircuitState,
    failure_count: u32,
    opened_at: Option<u64>,
    last_failure_time: Option<u64>,
    last_success_time: Option<u64>,
    last_error: Option<LastError>,
    trip_count: u32,
    probe_in_flight: bool,
}

impl View for CircuitBreakerInner {
    type V = BreakerModel;

    closed spec fn view(&self) -> BreakerModel {
        BreakerModel {
            state: self.state,
            failure_count: self.failure_count,
            opened_at: self.opened_at,
            last_failure_time: self.last_failure_time,
            last_success_time: self.last_success_time,
            last_error: match self.last_error {
                Some(e) => Some((e.error_type@, e.message@)),
                None => None,
            },
            trip_count: self.trip_count,
            probe_in_flight: self.probe_in_flight,
        }
    }
}

impl CircuitBreakerInner {
    #[verifier::type_invariant]
    closed spec fn inv(&self) -> bool {
        self@.well_formed()
    }

    /// A breaker in the closed state.
    pub fn new() -> (r: Self)
        ensures
            r@ == BreakerModel::initial(),
    {
        Self {
            state: CircuitState::Closed,
            failure_count: 0,
            opened_at: None,
            last_failure_time: None,
            last_success_time: None,
            last_error: None,
            trip_count: 0,
            probe_in_flight: false,
        }
    }

    /// Checks whether a request may go through at time `now_ms`.
    pub fn check_state(&mut self, now_ms: u64) -> (r: CheckResult)
        ensures
            r == old(self)@.check_result(now_ms),
            final(self)@ == old(self)@.after_check(now_ms),
            final(self)@.well_formed(),
    {
        proof {
            use_type_invariant(&*self);
        }
        match self.state {
            CircuitState::Closed => CheckResult::Allowed,
            CircuitState::Open => {
                let expired = match self.opened_at {
                    Some(opened) => now_ms >= opened && now_ms - opened >= OPEN_DURATION_MS,
                    None => false,
                };
                if expired {
                    self.state = CircuitState::HalfOpen;
                    self.probe_in_flight = true;
                    CheckResult::ProbePermit
                } else {
                    CheckResult::Rejected
                }
            },
            CircuitState::HalfOpen => {
                if !self.probe_in_flight {
                    self.probe_in_flight = true;
                    CheckResult::ProbePermit
                } else {
                    CheckResult::WaitForProbe
                }
            },
        }
    }

    /// Records the failure of a request that held a normal permit.
    pub fn record_failure(
        &mut self,
        provider_name: &str,
        error_type: &str,
        message: &str,
        now_ms: u64,
    )
        requires
            old(self)@.trip_count < u32::MAX,
        ensures
            final(self)@ == old(self)@.after_failure(now_ms, error_type@, message@),
            final(self)@.well_formed(),
            final(self)@.state == CircuitState::Open ==> final(self)@.opened_at is Some,
            old(self)@.state == CircuitState::Closed && final(self)@.state == CircuitState::Open
                ==> final(self)@.opened_at == Some(now_ms),
            old(self)@.state == CircuitState::Closed && final(self)@.failure_count
                >= FAILURE_THRESHOLD ==> final(self)@.state == CircuitState::Open,
    {
        proof {
            use_type_invariant(&*self);
        }
        self.last_failure_time = Some(now_ms);
        self.last_error = Some(
            LastError {
                error_type: String::from_str(error_type),
                message: String::from_str(message),
            },
        );
        match self.state {
            CircuitState::Closed => {
                if self.failure_count + 1 >= FAILURE_THRESHOLD {
                    self.opened_at = Some(now_ms);
                    self.state = CircuitState::Open;
                    self.failure_count += 1;
                    self.trip_count += 1;
                } else {
                    self.failure_count += 1;
                }
            },
            _ => {},
        }
    }

    /// Records the success of a request that held a normal permit.
    pub fn record_success(&mut self, provider_name: &str, now_ms: u64)
        ensures
            final(self)@ == old(self)@.after_success(now_ms),
            final(self)@.well_formed(),
    {
        proof {
            use_type_invariant(&*self);
        }
        self.failure_count = 0;
        self.last_success_time = Some(now_ms);
    }

    /// Records that the probe succeeded: the circuit closes.
    pub fn record_probe_success(&mut self, provider_name: &str, now_ms: u64)
        ensures
            final(self)@ == old(self)@.after_probe_success(now_ms),
            final(self)@.well_formed(),
    {
        proof {
            use_type_invariant(&*self);
        }
        self.probe_in_flight = false;
        self.failure_count = 0;
        self.state = CircuitState::Closed;
        self.last_success_time = Some(now_ms);
    }

    /// Records that the probe failed: the circuit opens again, with a fresh
    /// timeout.
    pub fn record_probe_failure(
        &mut self,
        provider_name: &str,
        error_type: &str,
        message: &str,
        now_ms: u64,
    )
        ensures
            final(self)@ == old(self)@.after_probe_failure(now_ms, error_type@, message@),
            final(self)@.well_formed(),
    {
        proof {
            use_type_invariant(&*self);
        }
        self.opened_at = Some(now_ms);
        self.probe_in_flight = false;
        self.state = CircuitState::Open;
        self.last_error = Some(
            LastError {
                error_type: String::from_str(error_type),
                message: String::from_str(message),
            },
        );
    }

    /// The current state.
    pub fn state(&self) -> (r: CircuitState)
        ensures
            r == self@.state,
    {
        self.state
    }

    /// The number of consecutive failures.
    pub fn failure_count(&self) -> (r: u32)
        ensures
            r == self@.failure_count,
    {
        self.failure_count
    }

    /// How often the circuit has opened.
    pub fn trip_count(&self) -> (r: u32)
        ensures
            r == self@.trip_count,
    {
        self.trip_count
    }

    /// When the circuit last opened.
    pub fn opened_at(&self) -> (r: Option<u64>)
        ensures
            r == self@.opened_at,
    {
        self.opened_at
    }

    /// When a failure was last recorded.
    pub fn last_failure_time(&self) -> (r: Option<u64>)
        ensures
            r == self@.last_failure_time,
    {
        self.last_failure_time
    }

    /// When a success was last recorded.
    pub fn last_success_time(&self) -> (r: Option<u64>)
        ensures
            r == self@.last_success_time,
    {
        self.last_success_time
    }

    /// Whether a probe is in flight.
    pub fn probe_in_flight(&self) -> (r: bool)
        ensures
            r == self@.probe_in_flight,
    {
        self.probe_in_flight
    }

    /// The last error recorded.
    pub fn last_error(&self) -> (r: Option<&LastError>)
        ensures
            match r {
                Some(e) => self@.last_error == Some((e.error_type@, e.message@)),
                None => self@.last_error is None,
            },
    {
        self.last_error.as_ref()
    }
}

/// Snapshot of one provider's breaker.
#[derive(Debug)]
pub struct CircuitSnapshot {
    pub name: String,
    pub state: CircuitState,
    pub failure_count: u32,
}

/// Error returned when a provider's circuit is open.
#[derive(Debug, Clone)]
pub struct CircuitOpenError {
    /// Name of the provider whose circuit is open.
    pub provider: String,
    /// The last error that was recorded for it.
    pub reason: String,
    /// How often the circuit has opened.
    pub trip_count: u32,
}

/// The text of [`CircuitOpenError::message`].
pub open spec fn open_error_message(provider: Seq<char>, reason: Seq<char>) -> Seq<char> {
    "Circuit breaker open for provider '"@ + provider + "': "@ + reason
}

impl CircuitOpenError {
    /// The error as a sentence.
    pub fn message(&self) -> (r: String)
        ensures
            r@ == open_error_message(self.provider@, self.reason@),
    {
        let mut text = String::from_str("Circuit breaker open for provider '");
        text.append(self.provider.as_str());
        text.append("': ");
        text.append(self.reason.as_str());
        text
    }
}

/// What a caller that asked for a permit has to do.
#[derive(Debug)]
pub enum PermitDecision {
    /// Go ahead with this permit.
    Granted(PermitType),
    /// A probe is in flight: wait for its outcome. The error is the one to
    /// return if the probe fails.
    Wait(CircuitOpenError),
    /// The circuit is open.
    Rejected(CircuitOpenError),
}

/// What a waiting caller observed on the probe channel.
#[derive(Debug, Clone, Copy, PartialEq, Eq, Structural)]
pub enum WaitEvent {
    /// A probe outcome was published.
    Changed(ProbeResult),
    /// The channel was closed.
    Closed,
}

/// The reason reported for an open circuit: category and message of the last
/// error, or `unknown`.
pub open spec fn open_reason(m: BreakerModel) -> Seq<char> {
    match m.last_error {
        Some((error_type, message)) => error_type + ": "@ + message,
        None => "unknown"@,
    }
}

/// The model of a [`PermitDecision`].
pub ghost enum DecisionModel {
    Granted(PermitType),
    Wait { provider: Seq<char>, reason: Seq<char>, trip_count: u32 },
    Rejected { provider: Seq<char>, reason: Seq<char>, trip_count: u32 },
}

impl View for PermitDecision {
    type V = DecisionModel;

    open spec fn view(&self) -> DecisionModel {
        match *self {
            PermitDecision::Granted(p) => DecisionModel::Granted(p),
            PermitDecision::Wait(e) => DecisionModel::Wait {
                provider: e.provider@,
                reason: e.reason@,
                trip_count: e.trip_count,
            },
            PermitDecision::Rejected(e) => DecisionModel::Rejected {
                provider: e.provider@,
                reason: e.reason@,
                trip_count: e.trip_count,
            },
        }
    }
}

/// The decision for a request to `provider` whose breaker is `m` at `now`.
pub open spec fn decision_for(provider: Seq<char>, m: BreakerModel, now: u64) -> DecisionModel {
    match m.check_result(now) {
        CheckResult::Allowed => DecisionModel::Granted(PermitType::Normal),
        CheckResult::ProbePermit => DecisionModel::Granted(PermitType::Probe),
        CheckResult::WaitForProbe => DecisionModel::Wait {
            provider,
            reason: open_reason(m),
            trip_count: m.trip_count,
        },
        CheckResult::Rejected => DecisionModel::Rejected {
            provider,
            reason: open_reason(m),
            trip_count: m.trip_count,
        },
    }
}

impl CircuitBreakerInner {
    /// The reason to report while the circuit is open.
    pub fn open_reason(&self) -> (r: String)
        ensures
            r@ == open_reason(self@),
    {
        match &self.last_error {
            Some(e) => {
                let mut text = e.error_type.clone();
                text.append(": ");
                text.append(e.message.as_str());
                text
            },
            None => String::from_str("unknown"),
        }
    }
}

/// Whether `answer` rejects the request with the given error.
pub open spec fn rejects_with(
    answer: Result<PermitType, CircuitOpenError>,
    provider: Seq<char>,
    reason: Seq<char>,
    trip_count: u32,
) -> bool {
    match answer {
        Ok(_) => false,
        Err(e) => e.provider@ == provider && e.reason@ == reason && e.trip_count == trip_count,
    }
}

/// What a waiting caller does on an event of the probe channel: `None` to
/// keep waiting, otherwise the answer to its request. A successful probe
/// lets it through with a normal permit; a failed probe rejects it with
/// `error`; a closed channel rejects it and says so.
pub fn resolve_wait(event: WaitEvent, error: &CircuitOpenError) -> (r: Option<
    Result<PermitType, CircuitOpenError>,
>)
    ensures
        match event {
            WaitEvent::Changed(ProbeResult::Pending) => r is None,
            WaitEvent::Changed(ProbeResult::Success) => r == Some(
                Ok::<PermitType, CircuitOpenError>(PermitType::Normal),
            ),
            WaitEvent::Changed(ProbeResult::Failed) => r is Some && rejects_with(
                r.unwrap(),
                error.provider@,
                error.reason@,
                error.trip_count,
            ),
            WaitEvent::Closed => r is Some && rejects_with(
                r.unwrap(),
                error.provider@,
                "probe watch channel closed"@,
                error.trip_count,
            ),
        },
{
    match event {
        WaitEvent::Changed(ProbeResult::Pending) => None,
        WaitEvent::Changed(ProbeResult::Success) => Some(Ok(PermitType::Normal)),
        WaitEvent::Changed(ProbeResult::Failed) => Some(
            Err(
                CircuitOpenError {
                    provider: error.provider.clone(),
                    reason: error.reason.clone(),
                    trip_count: error.trip_count,
                },
            ),
        ),
        WaitEvent::Closed => Some(
            Err(
                CircuitOpenError {
                    provider: error.provider.clone(),
                    reason: String::from_str("probe watch channel closed"),
                    trip_count: error.trip_count,
                },
            ),
        ),
    }
}

/// `dashmap::DashMap`, a concurrent hash map. What one holds is named by
/// [`breakers_of`]; the functions below say what its methods do to that.
#[verifier::external_type_specification]
#[verifier::external_body]
#[verifier::reject_recursive_types(K)]
#[verifier::reject_recursive_types(V)]
#[verifier::reject_recursive_types(S)]
pub struct ExDashMap<K, V, S>(dashmap::DashMap<K, V, S>);

/// The concurrent map that holds the breakers, keyed by provider name.
pub type BreakerMap = dashmap::DashMap<String, CircuitBreakerInner>;

/// The breakers that a map holds, by provider name.
pub uninterp spec fn breakers_of(map: BreakerMap) -> Map<
    Seq<char>,
    BreakerModel,
>;

/// A registry without providers.
pub open spec fn no_breakers() -> Map<Seq<char>, BreakerModel> {
    Map::empty()
}

/// Calls `DashMap::new`. Trusted: the new map is empty.
#[verifier::external_body]
fn empty_map() -> (r: BreakerMap)
    ensures
        breakers_of(r) == no_breakers(),
{
    dashmap::DashMap::new()
}

/// Calls `DashMap::insert`. Trusted: afterwards the key maps to the value,
/// and the other entries are as before.
#[verifier::external_body]
fn map_insert(
    map: &mut BreakerMap,
    name: String,
    breaker: CircuitBreakerInner,
)
    ensures
        breakers_of(*final(map)) == breakers_of(*old(map)).insert(name@, breaker@),
{
    map.insert(name, breaker);
}

/// Calls `DashMap::remove`. Trusted: an entry with this key is taken out and
/// returned, the other entries stay; without one, nothing changes.
#[verifier::external_body]
fn map_remove(map: &mut BreakerMap, name: &str) -> (r: Option<
    (String, CircuitBreakerInner),
>)
    ensures
        match r {
            Some((key, breaker)) => {
                &&& key@ == name@
                &&& breakers_of(*old(map)).contains_key(name@)
                &&& breaker@ == breakers_of(*old(map))[name@]
                &&& breakers_of(*final(map)) == breakers_of(*old(map)).remove(name@)
            },
            None => {
                &&& !breakers_of(*old(map)).contains_key(name@)
                &&& breakers_of(*final(map)) == breakers_of(*old(map))
            },
        },
{
    map.remove(name)
}

/// State and counters of one breaker.
#[derive(Debug, Clone, Copy)]
pub struct BreakerGauge {
    pub state: CircuitState,
    pub failure_count: u32,
    pub trip_count: u32,
    pub opened_at: Option<u64>,
}

/// Calls `DashMap::get`. Trusted: it finds the entry with this key, if there
/// is one; state and counters are read from it.
#[verifier::external_body]
fn map_peek(map: &BreakerMap, name: &str) -> (r: Option<
    BreakerGauge,
>)
    ensures
        match r {
            Some(g) => {
                &&& breakers_of(*map).contains_key(name@)
                &&& g.state == breakers_of(*map)[name@].state
                &&& g.failure_count == breakers_of(*map)[name@].failure_count
                &&& g.trip_count == breakers_of(*map)[name@].trip_count
                &&& g.opened_at == breakers_of(*map)[name@].opened_at
            },
            None => !breakers_of(*map).contains_key(name@),
        },
{
    map.get(name).map(
        |b| BreakerGauge {
            state: b.state(),
            failure_count: b.failure_count(),
            trip_count: b.trip_count(),
            opened_at: b.opened_at(),
        },
    )
}

/// Whether `snapshots` lists each breaker of `breakers` once, in any order.
pub open spec fn lists_each_once(
    snapshots: Seq<CircuitSnapshot>,
    breakers: Map<Seq<char>, BreakerModel>,
) -> bool {
    &&& forall|i: int|
        0 <= i < snapshots.len() ==> {
            &&& breakers.contains_key(#[trigger] snapshots[i].name@)
            &&& snapshots[i].state == breakers[snapshots[i].name@].state
            &&& snapshots[i].failure_count == breakers[snapshots[i].name@].failure_count
        }
    &&& forall|i: int, j: int|
        0 <= i < j < snapshots.len() ==> #[trigger] snapshots[i].name@ != #[trigger] snapshots[j].name@
    &&& forall|name: Seq<char>| #[trigger]
        breakers.contains_key(name) ==> exists|i: int|
            0 <= i < snapshots.len() && #[trigger] snapshots[i].name@ == name
}

/// Calls `DashMap::iter`. Trusted: it visits each entry once; the order is
/// not determined.
#[verifier::external_body]
fn map_snapshots(map: &BreakerMap) -> (r: Vec<CircuitSnapshot>)
    ensures
        lists_each_once(r@, breakers_of(*map)),
{
    map.iter().map(
        |e| CircuitSnapshot {
            name: e.key().clone(),
            state: e.value().state(),
            failure_count: e.value().failure_count(),
        },
    ).collect()
}

/// One breaker per configured provider.
///
/// The registry is a sequential structure: every operation that changes a
/// breaker takes `&mut self`. A server shares it behind a lock and publishes
/// probe outcomes on a channel of its own.
pub struct CircuitBreakerRegistry {
    breakers: BreakerMap,
}

impl View for CircuitBreakerRegistry {
    type V = Map<Seq<char>, BreakerModel>;

    closed spec fn view(&self) -> Map<Seq<char>, BreakerModel> {
        breakers_of(self.breakers)
    }
}

/// A new breaker for each of the names.
pub open spec fn fresh_breakers(names: Seq<String>) -> Map<Seq<char>, BreakerModel> {
    Map::new(
        |name: Seq<char>| exists|i: int| 0 <= i < names.len() && #[trigger] names[i]@ == name,
        |name: Seq<char>| BreakerModel::initial(),
    )
}

/// The registry after `change` was applied to the breaker of `name`; a name
/// without a breaker changes nothing.
pub open spec fn with_breaker(
    breakers: Map<Seq<char>, BreakerModel>,
    name: Seq<char>,
    change: spec_fn(BreakerModel) -> BreakerModel,
) -> Map<Seq<char>, BreakerModel> {
    if breakers.contains_key(name) {
        breakers.insert(name, change(breakers[name]))
    } else {
        breakers
    }
}

impl CircuitBreakerRegistry {
    /// A registry with one closed breaker per provider name.
    pub fn new(provider_names: &[String]) -> (r: Self)
        ensures
            r@ == fresh_breakers(provider_names@),
    {
        let mut breakers = empty_map();
        let mut i: usize = 0;
        assert(breakers_of(breakers) =~= fresh_breakers(provider_names@.take(0)));
        while i < provider_names.len()
            invariant
                i <= provider_names@.len(),
                breakers_of(breakers) == fresh_breakers(provider_names@.take(i as int)),
            decreases provider_names@.len() - i,
        {
            let ghost before = provider_names@.take(i as int);
            let ghost after = provider_names@.take(i + 1);
            map_insert(&mut breakers, provider_names[i].clone(), CircuitBreakerInner::new());
            proof {
                assert(after[i as int]@ == provider_names@[i as int]@);
                assert forall|name: Seq<char>|
                    fresh_breakers(after).contains_key(name) <==> (fresh_breakers(
                        before,
                    ).contains_key(name) || name == provider_names@[i as int]@) by {
                    if fresh_breakers(after).contains_key(name) {
                        let k = choose|k: int| 0 <= k < after.len() && #[trigger] after[k]@ == name;
                        if k < i {
                            assert(before[k]@ == name);
                        }
                    }
                    if fresh_breakers(before).contains_key(name) {
                        let k = choose|k: int|
                            0 <= k < before.len() && #[trigger] before[k]@ == name;
                        assert(after[k]@ == name);
                    }
                }
                assert(breakers_of(breakers) =~= fresh_breakers(after));
            }
            i += 1;
        }
        assert(provider_names@.take(i as int) =~= provider_names@);
        Self { breakers }
    }

    /// Decides whether a request to `provider_name` may proceed at `now_ms`.
    /// A provider without a breaker is always let through.
    pub fn acquire_permit(&mut self, provider_name: &str, now_ms: u64) -> (r: PermitDecision)
        ensures
            final(self)@ == with_breaker(
                old(self)@,
                provider_name@,
                |m: BreakerModel| m.after_check(now_ms),
            ),
            r@ == if old(self)@.contains_key(provider_name@) {
                decision_for(provider_name@, old(self)@[provider_name@], now_ms)
            } else {
                DecisionModel::Granted(PermitType::Normal)
            },
    {
        let ghost before = self@;
        match map_remove(&mut self.breakers, provider_name) {
            None => PermitDecision::Granted(PermitType::Normal),
            Some((key, breaker)) => {
                let mut breaker = breaker;
                let result = breaker.check_state(now_ms);
                let decision = match result {
                    CheckResult::Allowed => PermitDecision::Granted(PermitType::Normal),
                    CheckResult::ProbePermit => PermitDecision::Granted(PermitType::Probe),
                    CheckResult::WaitForProbe => PermitDecision::Wait(
                        CircuitOpenError {
                            provider: String::from_str(provider_name),
                            reason: breaker.open_reason(),
                            trip_count: breaker.trip_count(),
                        },
                    ),
                    CheckResult::Rejected => PermitDecision::Rejected(
                        CircuitOpenError {
                            provider: String::from_str(provider_name),
                            reason: breaker.open_reason(),
                            trip_count: breaker.trip_count(),
                        },
                    ),
                };
                map_insert(&mut self.breakers, key, breaker);
                assert(self@ =~= before.insert(
                    provider_name@,
                    before[provider_name@].after_check(now_ms),
                ));
                decision
            },
        }
    }

    /// Records the success of a request that held a normal permit.
    pub fn record_success(&mut self, provider_name: &str, now_ms: u64)
        ensures
            final(self)@ == with_breaker(
                old(self)@,
                provider_name@,
                |m: BreakerModel| m.after_success(now_ms),
            ),
    {
        let ghost before = self@;
        match map_remove(&mut self.breakers, provider_name) {
            None => {},
            Some((key, breaker)) => {
                let mut breaker = breaker;
                breaker.record_success(provider_name, now_ms);
                map_insert(&mut self.breakers, key, breaker);
                assert(self@ =~= before.insert(
                    provider_name@,
                    before[provider_name@].after_success(now_ms),
                ));
            },
        }
    }

    /// Records the failure of a request that held a normal permit.
    pub fn record_failure(
        &mut self,
        provider_name: &str,
        error_type: &str,
        message: &str,
        now_ms: u64,
    )
        requires
            old(self)@.contains_key(provider_name@) ==> old(self)@[provider_name@].trip_count
                < u32::MAX,
        ensures
            final(self)@ == with_breaker(
                old(self)@,
                provider_name@,
                |m: BreakerModel| m.after_failure(now_ms, error_type@, message@),
            ),
    {
        let ghost before = self@;
        match map_remove(&mut self.breakers, provider_name) {
            None => {},
            Some((key, breaker)) => {
                let mut breaker = breaker;
                breaker.record_failure(provider_name, error_type, message, now_ms);
                map_insert(&mut self.breakers, key, breaker);
                assert(self@ =~= before.insert(
                    provider_name@,
                    before[provider_name@].after_failure(now_ms, error_type@, message@),
                ));
            },
        }
    }

    /// Records that the probe for `provider_name` succeeded.
    pub fn record_probe_success(&mut self, provider_name: &str, now_ms: u64)
        ensures
            final(self)@ == with_breaker(
                old(self)@,
                provider_name@,
                |m: BreakerModel| m.after_probe_success(now_ms),
            ),
    {
        let ghost before = self@;
        match map_remove(&mut self.breakers, provider_name) {
            None => {},
            Some((key, breaker)) => {
                let mut breaker = breaker;
                breaker.record_probe_success(provider_name, now_ms);
                map_insert(&mut self.breakers, key, breaker);
                assert(self@ =~= before.insert(
                    provider_name@,
                    before[provider_name@].after_probe_success(now_ms),
                ));
            },
        }
    }

    /// Records that the probe for `provider_name` failed.
    pub fn record_probe_failure(
        &mut self,
        provider_name: &str,
        error_type: &str,
        message: &str,
        now_ms: u64,
    )
        ensures
            final(self)@ == with_breaker(
                old(self)@,
                provider_name@,
                |m: BreakerModel| m.after_probe_failure(now_ms, error_type@, message@),
            ),
    {
        let ghost before = self@;
        match map_remove(&mut self.breakers, provider_name) {
            None => {},
            Some((key, breaker)) => {
                let mut breaker = breaker;
                breaker.record_probe_failure(provider_name, error_type, message, now_ms);
                map_insert(&mut self.breakers, key, breaker);
                assert(self@ =~= before.insert(
                    provider_name@,
                    before[provider_name@].after_probe_failure(now_ms, error_type@, message@),
                ));
            },
        }
    }

    /// Whether a failure can be recorded for `provider_name`: its count of
    /// trips has room for one more. A provider without a breaker has
    /// nothing to count.
    pub fn can_record_failure(&self, provider_name: &str) -> (r: bool)
        ensures
            r == (self@.contains_key(provider_name@) ==> self@[provider_name@].trip_count
                < u32::MAX),
    {
        match map_peek(&self.breakers, provider_name) {
            Some(g) => g.trip_count < u32::MAX,
            None => true,
        }
    }

    /// Whether a request to `provider_name` would be rejected at `now_ms`:
    /// its circuit is open and the timeout has not passed. Nothing changes.
    pub fn is_rejecting(&self, provider_name: &str, now_ms: u64) -> (r: bool)
        ensures
            r == (self@.contains_key(provider_name@) && self@[provider_name@].check_result(now_ms)
                == CheckResult::Rejected),
    {
        match map_peek(&self.breakers, provider_name) {
            Some(g) => match g.state {
                CircuitState::Open => match g.opened_at {
                    Some(opened) => !(now_ms >= opened && now_ms - opened >= OPEN_DURATION_MS),
                    None => true,
                },
                _ => false,
            },
            None => false,
        }
    }

    /// A snapshot of every breaker, in no particular order.
    pub fn all_states(&self) -> (r: Vec<CircuitSnapshot>)
        ensures
            lists_each_once(r@, self@),
    {
        map_snapshots(&self.breakers)
    }

    /// The state of the breaker of `provider_name`.
    pub fn state(&self, provider_name: &str) -> (r: Option<CircuitState>)
        ensures
            r == if self@.contains_key(provider_name@) {
                Some(self@[provider_name@].state)
            } else {
                None
            },
    {
        match map_peek(&self.breakers, provider_name) {
            Some(g) => Some(g.state),
            None => None,
        }
    }

    /// The consecutive failures counted for `provider_name`.
    pub fn failure_count(&self, provider_name: &str) -> (r: Option<u32>)
        ensures
            r == if self@.contains_key(provider_name@) {
                Some(self@[provider_name@].failure_count)
            } else {
                None
            },
    {
        match map_peek(&self.breakers, provider_name) {
            Some(g) => Some(g.failure_count),
            None => None,
        }
    }

    /// How often the circuit of `provider_name` has opened.
    pub fn trip_count(&self, provider_name: &str) -> (r: Option<u32>)
        ensures
            r == if self@.contains_key(provider_name@) {
                Some(self@[provider_name@].trip_count)
            } else {
                None
            },
    {
        match map_peek(&self.breakers, provider_name) {
            Some(g) => Some(g.trip_count),
            None => None,
        }
    }
}

/// The duty of the holder of a probe permit: to report the outcome of the
/// probe once. A guard that is released without a report counts the probe
/// as failed.
#[derive(Debug)]
pub struct ProbeGuard {
    provider: String,
    resolved: bool,
}

impl ProbeGuard {
    /// The provider whose probe this guard stands for.
    pub closed spec fn provider(&self) -> Seq<char> {
        self.provider@
    }

    /// Whether the outcome was reported.
    pub closed spec fn resolved(&self) -> bool {
        self.resolved
    }

    /// A guard for the probe of `provider`, not yet resolved.
    pub fn new(provider: String) -> (r: Self)
        ensures
            r.provider() == provider@,
            !r.resolved(),
    {
        Self { provider, resolved: false }
    }

    /// Reports that the probe succeeded: the circuit closes.
    pub fn success(self, registry: &mut CircuitBreakerRegistry, now_ms: u64)
        ensures
            final(registry)@ == with_breaker(
                old(registry)@,
                self.provider(),
                |m: BreakerModel| m.after_probe_success(now_ms),
            ),
    {
        registry.record_probe_success(self.provider.as_str(), now_ms);
    }

    /// Reports that the probe failed: the circuit opens with a fresh timeout.
    pub fn failure(
        self,
        registry: &mut CircuitBreakerRegistry,
        error_type: &str,
        message: &str,
        now_ms: u64,
    )
        ensures
            final(registry)@ == with_breaker(
                old(registry)@,
                self.provider(),
                |m: BreakerModel| m.after_probe_failure(now_ms, error_type@, message@),
            ),
    {
        registry.record_probe_failure(self.provider.as_str(), error_type, message, now_ms);
    }

    /// Gives the guard up. Unless it was released before, the probe counts as
    /// failed.
    pub fn release(&mut self, registry: &mut CircuitBreakerRegistry, now_ms: u64)
        ensures
            final(self).provider() == old(self).provider(),
            final(self).resolved(),
            final(registry)@ == if old(self).resolved() {
                old(registry)@
            } else {
                with_breaker(
                    old(registry)@,
                    old(self).provider(),
                    |m: BreakerModel|
                        m.after_probe_failure(
                            now_ms,
                            "dropped"@,
                            "probe dropped without resolution"@,
                        ),
                )
            },
    {
        if !self.resolved {
            self.resolved = true;
            registry.record_probe_failure(
                self.provider.as_str(),
                "dropped",
                "probe dropped without resolution",
                now_ms,
            );
        }
    }
}

} // verus!
