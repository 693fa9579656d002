//! Decisions of the request handler.
//!
//! The handler itself runs in the server: it reads the request, talks to the
//! provider and writes the response. What it decides on the way stands here,
//! as functions on plain values: which candidate may be tried, what outcome
//! is reported to its circuit breaker, which headers the response carries,
//! and what the health endpoint says.

use crate::config::ProviderConfig;
use crate::json::Json;
use crate::proxy::circuit_breaker::{
    decision_for, with_breaker, BreakerModel, CircuitBreakerRegistry, CircuitOpenError,
    CircuitSnapshot, CircuitState, DecisionModel, PermitDecision, PermitType,
};
use crate::proxy::retry::{
    format_retries_header, is_retryable, retries_header, retryable_status, AttemptOutcome,
    AttemptRecord, CandidateInfo,
};
use crate::proxy::stream::{json_usage, usage_of, StreamResult};
use crate::text::{
    chars_of, decimal_digits, decimal_text, is_decimal_digit, is_digit, str_eq, string_of,
    text_view,
};
use vstd::prelude::*;

verus! {

/// Request header that names a policy.
pub const ARBSTR_POLICY_HEADER: &'static str = "x-arbstr-policy";

/// Response header: correlation id.
pub const ARBSTR_REQUEST_ID_HEADER: &'static str = "x-arbstr-request-id";

/// Response header: cost of the request.
pub const ARBSTR_COST_SATS_HEADER: &'static str = "x-arbstr-cost-sats";

/// Response header: latency in milliseconds.
pub const ARBSTR_LATENCY_MS_HEADER: &'static str = "x-arbstr-latency-ms";

/// Response header: the provider that handled the request.
pub const ARBSTR_PROVIDER_HEADER: &'static str = "x-arbstr-provider";

/// Response header: present, with the value `true`, on streaming responses.
pub const ARBSTR_STREAMING_HEADER: &'static str = "x-arbstr-streaming";

/// Response header: the failed attempts.
pub const ARBSTR_RETRIES_HEADER: &'static str = "x-arbstr-retries";

/// Time allowed for a whole retry sequence, in seconds.
pub const RETRY_TIMEOUT_SECS: u64 = 30;

/// The token counts of a response, prompt first. A response without a usage
/// object, or with one that lacks a count, has none.
pub open spec fn response_usage(response: Json) -> Option<(u32, u32)> {
    match json_usage(response) {
        Some(u) => Some((u.prompt_tokens, u.completion_tokens)),
        None => None,
    }
}

/// Reads the token counts of a provider response.
pub fn extract_usage(response: &Json) -> (r: Option<(u32, u32)>)
    ensures
        r == response_usage(*response),
{
    match usage_of(response) {
        Some(u) => Some((u.prompt_tokens, u.completion_tokens)),
        None => None,
    }
}

/// A latency as it is written into the header: as an unsigned number.
pub open spec fn latency_value(latency_ms: i64) -> nat {
    if latency_ms >= 0 {
        latency_ms as nat
    } else {
        (latency_ms + 0x1_0000_0000_0000_0000) as nat
    }
}

/// The shape of a cost as the header shows it: a whole part of at least one
/// digit, a point, and exactly two fractional digits.
pub open spec fn two_fractional_digits(text: Seq<char>) -> bool {
    &&& text.len() >= 4
    &&& text[text.len() - 3] == '.'
    &&& forall|i: int| 0 <= i < text.len() && i != text.len() - 3 ==> is_digit(#[trigger] text[i])
}

/// Whether a text has the shape of a cost with two fractional digits.
pub fn is_cost_text(text: &str) -> (r: bool)
    ensures
        r == two_fractional_digits(text@),
{
    let chars = chars_of(text);
    let n = chars.len();
    if n < 4 {
        return false;
    }
    if chars[n - 3] != '.' {
        return false;
    }
    let mut i: usize = 0;
    while i < n
        invariant
            i <= n,
            n == chars@.len(),
            n >= 4,
            chars@ == text@,
            forall|k: int| 0 <= k < i && k != n - 3 ==> is_digit(#[trigger] chars@[k]),
        decreases n - i,
    {
        if i != n - 3 && !is_decimal_digit(chars[i]) {
            return false;
        }
        i += 1;
    }
    true
}

/// One header: name and value.
pub open spec fn header(name: Seq<char>, value: Seq<char>) -> (Seq<char>, Seq<char>) {
    (name, value)
}

/// The headers that a response carries. The request id is always there. A
/// streaming response is marked as such and carries neither latency nor
/// cost; any other response carries the latency, and the cost where it is
/// known. The provider is named where there is one.
pub open spec fn metadata_headers(
    request_id: Seq<char>,
    latency_ms: i64,
    provider: Option<Seq<char>>,
    cost: Option<Seq<char>>,
    is_streaming: bool,
) -> Seq<(Seq<char>, Seq<char>)> {
    let first = seq![header(ARBSTR_REQUEST_ID_HEADER@, request_id)];
    let timing = if is_streaming {
        seq![header(ARBSTR_STREAMING_HEADER@, "true"@)]
    } else {
        let latency = seq![
            header(ARBSTR_LATENCY_MS_HEADER@, decimal_digits(latency_value(latency_ms))),
        ];
        match cost {
            Some(text) => latency + seq![header(ARBSTR_COST_SATS_HEADER@, text)],
            None => latency,
        }
    };
    let named = match provider {
        Some(name) => seq![header(ARBSTR_PROVIDER_HEADER@, name)],
        None => Seq::empty(),
    };
    first + timing + named
}

/// The view of a list of headers.
pub open spec fn headers_view(headers: Seq<(String, String)>) -> Seq<(Seq<char>, Seq<char>)> {
    headers.map_values(|h: (String, String)| (h.0@, h.1@))
}

/// The metadata headers of a response. `cost_sats` is the cost of the
/// request as it is to be shown, with two fractional digits; the header
/// carries it letter for letter.
pub fn attach_arbstr_headers(
    request_id: &str,
    latency_ms: i64,
    provider: Option<&str>,
    cost_sats: Option<&str>,
    is_streaming: bool,
) -> (r: Vec<(String, String)>)
    requires
        cost_sats matches Some(text) ==> two_fractional_digits(text@),
    ensures
        headers_view(r@) == metadata_headers(
            request_id@,
            latency_ms,
            text_view(provider),
            text_view(cost_sats),
            is_streaming,
        ),
        forall|i: int|
            0 <= i < r@.len() && (#[trigger] r@[i]).0@ == ARBSTR_COST_SATS_HEADER@
                ==> two_fractional_digits(r@[i].1@),
{
    let mut headers: Vec<(String, String)> = Vec::new();
    headers.push((String::from_str(ARBSTR_REQUEST_ID_HEADER), String::from_str(request_id)));
    if is_streaming {
        headers.push((String::from_str(ARBSTR_STREAMING_HEADER), String::from_str("true")));
    } else {
        let shown: u64 = if latency_ms >= 0 {
            latency_ms as u64
        } else {
            (latency_ms as i128 + 0x1_0000_0000_0000_0000i128) as u64
        };
        headers.push((String::from_str(ARBSTR_LATENCY_MS_HEADER), decimal_text(shown as u128)));
        match cost_sats {
            Some(text) => {
                headers.push((String::from_str(ARBSTR_COST_SATS_HEADER), String::from_str(text)));
            },
            None => {},
        }
    }
    match provider {
        Some(name) => {
            headers.push((String::from_str(ARBSTR_PROVIDER_HEADER), String::from_str(name)));
        },
        None => {},
    }
    assert(headers_view(headers@) =~= metadata_headers(
        request_id@,
        latency_ms,
        text_view(provider),
        text_view(cost_sats),
        is_streaming,
    ));
    proof {
        reveal_strlit("x-arbstr-request-id");
        reveal_strlit("x-arbstr-cost-sats");
        reveal_strlit("x-arbstr-latency-ms");
        reveal_strlit("x-arbstr-provider");
        reveal_strlit("x-arbstr-streaming");
        assert(ARBSTR_STREAMING_HEADER@[9] != ARBSTR_COST_SATS_HEADER@[9]);
        assert(ARBSTR_REQUEST_ID_HEADER@.len() != ARBSTR_COST_SATS_HEADER@.len());
        assert(ARBSTR_LATENCY_MS_HEADER@.len() != ARBSTR_COST_SATS_HEADER@.len());
        assert(ARBSTR_PROVIDER_HEADER@.len() != ARBSTR_COST_SATS_HEADER@.len());
    }
    headers
}

/// Adds the retries header where attempts have failed.
pub fn attach_retries_header(headers: &mut Vec<(String, String)>, attempts: &[AttemptRecord])
    ensures
        headers_view(final(headers)@) == if attempts@.len() == 0 {
            headers_view(old(headers)@)
        } else {
            headers_view(old(headers)@).push(
                header(ARBSTR_RETRIES_HEADER@, retries_header(attempts@)),
            )
        },
{
    let ghost before = headers@;
    match format_retries_header(attempts) {
        Some(value) => {
            headers.push((String::from_str(ARBSTR_RETRIES_HEADER), value));
            assert(headers_view(headers@) =~= headers_view(before).push(
                header(ARBSTR_RETRIES_HEADER@, retries_header(attempts@)),
            ));
        },
        None => {},
    }
}

/// What is reported to a provider's circuit breaker after an attempt.
#[derive(Debug, Clone, Copy, PartialEq, Eq, Structural)]
pub enum CircuitReport {
    /// Nothing: the failure says nothing about the provider's health.
    Nothing,
    /// A success of an ordinary request.
    Success,
    /// A failure of an ordinary request.
    Failure,
    /// The probe succeeded.
    ProbeSuccess,
    /// The probe failed.
    ProbeFailure,
}

/// The report for an attempt. An ordinary request counts as a failure only
/// when its status is a retryable one; a probe is resolved either way.
pub open spec fn report_for(permit: PermitType, outcome: AttemptOutcome) -> CircuitReport {
    match (permit, outcome) {
        (PermitType::Normal, AttemptOutcome::Success) => CircuitReport::Success,
        (PermitType::Normal, AttemptOutcome::Failure(status)) => if retryable_status(status) {
            CircuitReport::Failure
        } else {
            CircuitReport::Nothing
        },
        (PermitType::Probe, AttemptOutcome::Success) => CircuitReport::ProbeSuccess,
        (PermitType::Probe, AttemptOutcome::Failure(_)) => CircuitReport::ProbeFailure,
    }
}

/// Decides what to report to the circuit breaker after an attempt.
pub fn circuit_report(permit: PermitType, outcome: AttemptOutcome) -> (r: CircuitReport)
    ensures
        r == report_for(permit, outcome),
{
    match permit {
        PermitType::Normal => match outcome {
            AttemptOutcome::Success => CircuitReport::Success,
            AttemptOutcome::Failure(status) => if is_retryable(status) {
                CircuitReport::Failure
            } else {
                CircuitReport::Nothing
            },
        },
        PermitType::Probe => match outcome {
            AttemptOutcome::Success => CircuitReport::ProbeSuccess,
            AttemptOutcome::Failure(_) => CircuitReport::ProbeFailure,
        },
    }
}

/// The registry after permits were asked for the candidates from `from` up
/// to, but not including, `upto`.
pub open spec fn checked(
    breakers: Map<Seq<char>, BreakerModel>,
    names: Seq<CandidateInfo>,
    now: u64,
    from: int,
    upto: int,
) -> Map<Seq<char>, BreakerModel>
    decreases upto - from,
{
    if upto <= from {
        breakers
    } else {
        with_breaker(
            checked(breakers, names, now, from, upto - 1),
            names[upto - 1].name@,
            |m: BreakerModel| m.after_check(now),
        )
    }
}

/// The decision for candidate `i`, after permits were asked for the
/// candidates from `from` up to it.
pub open spec fn decision_at(
    breakers: Map<Seq<char>, BreakerModel>,
    names: Seq<CandidateInfo>,
    now: u64,
    from: int,
    i: int,
) -> DecisionModel {
    let before = checked(breakers, names, now, from, i);
    if before.contains_key(names[i].name@) {
        decision_for(names[i].name@, before[names[i].name@], now)
    } else {
        DecisionModel::Granted(PermitType::Normal)
    }
}

/// What the search for a candidate with a permit found.
#[derive(Debug)]
pub enum PermitSearch {
    /// The candidate at `index` may be tried, with this permit.
    Found { index: usize, permit: PermitType },
    /// The candidate at `index` has a probe in flight: wait for its outcome.
    /// The error is the one to return if the probe fails.
    Wait { index: usize, error: CircuitOpenError },
    /// Every candidate was rejected.
    AllOpen,
}

/// The message of the response when every candidate was rejected.
pub open spec fn all_open_message() -> Seq<char> {
    "All candidate providers have open circuits"@
}

/// The first candidate from `from` on that is not rejected by its circuit
/// breaker. Candidates are asked in order; each one asked has its breaker
/// updated by the check.
pub fn next_permitted(
    registry: &mut CircuitBreakerRegistry,
    candidates: &[CandidateInfo],
    from: usize,
    now_ms: u64,
) -> (r: PermitSearch)
    requires
        from <= candidates@.len(),
    ensures
        match r {
            PermitSearch::Found { index, permit } => {
                &&& from <= index < candidates@.len()
                &&& forall|i: int|
                    from <= i < index ==> decision_at(old(registry)@, candidates@, now_ms, from as int, i)
                        is Rejected
                &&& decision_at(old(registry)@, candidates@, now_ms, from as int, index as int)
                    == DecisionModel::Granted(permit)
                &&& final(registry)@ == checked(
                    old(registry)@,
                    candidates@,
                    now_ms,
                    from as int,
                    index + 1,
                )
            },
            PermitSearch::Wait { index, error } => {
                &&& from <= index < candidates@.len()
                &&& forall|i: int|
                    from <= i < index ==> decision_at(old(registry)@, candidates@, now_ms, from as int, i)
                        is Rejected
                &&& decision_at(old(registry)@, candidates@, now_ms, from as int, index as int)
                    == (DecisionModel::Wait {
                    provider: error.provider@,
                    reason: error.reason@,
                    trip_count: error.trip_count,
                })
                &&& final(registry)@ == checked(
                    old(registry)@,
                    candidates@,
                    now_ms,
                    from as int,
                    index + 1,
                )
            },
            PermitSearch::AllOpen => {
                &&& forall|i: int|
                    from <= i < candidates@.len() ==> decision_at(
                        old(registry)@,
                        candidates@,
                        now_ms,
                        from as int,
                        i,
                    ) is Rejected
                &&& final(registry)@ == checked(
                    old(registry)@,
                    candidates@,
                    now_ms,
                    from as int,
                    candidates@.len() as int,
                )
            },
        },
{
    let ghost start = registry@;
    let mut i: usize = from;
    while i < candidates.len()
        invariant
            from <= i <= candidates@.len(),
            start == old(registry)@,
            registry@ == checked(start, candidates@, now_ms, from as int, i as int),
            forall|k: int|
                from <= k < i ==> decision_at(start, candidates@, now_ms, from as int, k)
                    is Rejected,
        decreases candidates@.len() - i,
    {
        let ghost before = registry@;
        let decision = registry.acquire_permit(candidates[i].name.as_str(), now_ms);
        proof {
            assert(registry@ == checked(start, candidates@, now_ms, from as int, i + 1));
            assert(decision@ == decision_at(start, candidates@, now_ms, from as int, i as int));
        }
        match decision {
            PermitDecision::Granted(permit) => {
                return PermitSearch::Found { index: i, permit };
            },
            PermitDecision::Wait(error) => {
                return PermitSearch::Wait { index: i, error };
            },
            PermitDecision::Rejected(_) => {},
        }
        i += 1;
    }
    PermitSearch::AllOpen
}

/// Overall health of the providers.
#[derive(Debug, Clone, Copy, PartialEq, Eq, Structural)]
pub enum HealthStatus {
    /// Every circuit is closed, or there are no providers.
    Healthy,
    /// Some circuit is open or half-open, but not all are open.
    Degraded,
    /// Every circuit is open.
    Unhealthy,
}

/// The health that a list of snapshots stands for.
pub open spec fn overall_health(snapshots: Seq<CircuitSnapshot>) -> HealthStatus {
    if forall|i: int|
        0 <= i < snapshots.len() ==> (#[trigger] snapshots[i]).state == CircuitState::Closed {
        HealthStatus::Healthy
    } else if forall|i: int|
        0 <= i < snapshots.len() ==> (#[trigger] snapshots[i]).state == CircuitState::Open {
        HealthStatus::Unhealthy
    } else {
        HealthStatus::Degraded
    }
}

impl HealthStatus {
    /// The word for the status.
    pub fn as_str(&self) -> (r: &'static str)
        ensures
            r@ == match *self {
                HealthStatus::Healthy => "ok"@,
                HealthStatus::Degraded => "degraded"@,
                HealthStatus::Unhealthy => "unhealthy"@,
            },
    {
        match self {
            HealthStatus::Healthy => "ok",
            HealthStatus::Degraded => "degraded",
            HealthStatus::Unhealthy => "unhealthy",
        }
    }

    /// The HTTP status of the health response: 503 when unhealthy, else 200.
    pub fn http_status(&self) -> (r: u16)
        ensures
            r == if *self == HealthStatus::Unhealthy {
                503u16
            } else {
                200u16
            },
    {
        match self {
            HealthStatus::Unhealthy => 503,
            _ => 200,
        }
    }
}

/// Judges the health of the providers from the snapshots of their breakers.
pub fn health_status(snapshots: &[CircuitSnapshot]) -> (r: HealthStatus)
    ensures
        r == overall_health(snapshots@),
{
    let mut all_closed = true;
    let mut all_open = true;
    let mut i: usize = 0;
    while i < snapshots.len()
        invariant
            i <= snapshots@.len(),
            all_closed == forall|k: int|
                0 <= k < i ==> (#[trigger] snapshots@[k]).state == CircuitState::Closed,
            all_open == forall|k: int|
                0 <= k < i ==> (#[trigger] snapshots@[k]).state == CircuitState::Open,
        decreases snapshots@.len() - i,
    {
        match snapshots[i].state {
            CircuitState::Closed => {
                all_open = false;
            },
            CircuitState::Open => {
                all_closed = false;
            },
            CircuitState::HalfOpen => {
                all_open = false;
                all_closed = false;
            },
        }
        i += 1;
    }
    if all_closed {
        HealthStatus::Healthy
    } else if all_open {
        HealthStatus::Unhealthy
    } else {
        HealthStatus::Degraded
    }
}

/// A URL without the slashes that end it.
pub open spec fn without_trailing_slashes(url: Seq<char>) -> Seq<char>
    decreases url.len(),
{
    if url.len() > 0 && url.last() == '/' {
        without_trailing_slashes(url.drop_last())
    } else {
        url
    }
}

/// The URL that chat completions are sent to.
pub open spec fn completions_url(base: Seq<char>) -> Seq<char> {
    without_trailing_slashes(base) + "/chat/completions"@
}

/// The URL of a provider's chat-completions endpoint.
pub fn upstream_url(base_url: &str) -> (r: String)
    ensures
        r@ == completions_url(base_url@),
{
    let chars = chars_of(base_url);
    let mut end: usize = chars.len();
    assert(chars@.take(end as int) =~= chars@);
    while end > 0 && chars[end - 1] == '/'
        invariant
            end <= chars@.len(),
            without_trailing_slashes(chars@) == without_trailing_slashes(chars@.take(end as int)),
        decreases end,
    {
        assert(chars@.take(end as int).drop_last() =~= chars@.take(end - 1));
        end -= 1;
    }
    let kept = vstd::slice::slice_subrange(chars.as_slice(), 0, end);
    assert(kept@ =~= chars@.take(end as int));
    let mut url = string_of(kept);
    url.append("/chat/completions");
    url
}

/// What the log says of a request that ran into the deadline.
pub open spec fn timeout_message() -> Seq<char> {
    "Request timed out after 30 seconds (retry budget exhausted)"@
}

/// What a log row says of how a request ended.
#[derive(Debug, Clone)]
pub struct LoggedOutcome {
    /// The provider that handled the request, or the last one tried.
    pub provider: Option<String>,
    pub input_tokens: Option<u32>,
    pub output_tokens: Option<u32>,
    pub success: bool,
    pub error_status: Option<u16>,
    pub error_message: Option<String>,
}

impl LoggedOutcome {
    /// A failed request says why it failed.
    pub open spec fn well_formed(self) -> bool {
        !self.success ==> (self.error_status is Some || self.error_message is Some)
    }

    /// The outcome of a request that a provider answered.
    pub fn succeeded(provider: &str, usage: Option<(u32, u32)>) -> (r: Self)
        ensures
            r.well_formed(),
            r.success,
            r.provider matches Some(p) && p@ == provider@,
            r.input_tokens == match usage {
                Some(u) => Some(u.0),
                None => None,
            },
            r.output_tokens == match usage {
                Some(u) => Some(u.1),
                None => None,
            },
            r.error_status is None,
            r.error_message is None,
    {
        let (input_tokens, output_tokens) = match usage {
            Some((input, output)) => (Some(input), Some(output)),
            None => (None, None),
        };
        Self {
            provider: Some(String::from_str(provider)),
            input_tokens,
            output_tokens,
            success: true,
            error_status: None,
            error_message: None,
        }
    }

    /// The outcome of a request that failed with a status and a message.
    pub fn failed(provider: Option<&str>, status: u16, message: &str) -> (r: Self)
        ensures
            r.well_formed(),
            !r.success,
            match r.provider {
                Some(p) => text_view(provider) == Some(p@),
                None => provider is None,
            },
            r.input_tokens is None,
            r.output_tokens is None,
            r.error_status == Some(status),
            r.error_message matches Some(m) && m@ == message@,
    {
        Self {
            provider: match provider {
                Some(name) => Some(String::from_str(name)),
                None => None,
            },
            input_tokens: None,
            output_tokens: None,
            success: false,
            error_status: Some(status),
            error_message: Some(String::from_str(message)),
        }
    }

    /// The outcome of a request that no provider was asked for, because every
    /// candidate's circuit was open: status 503, and no provider.
    pub fn circuits_open() -> (r: Self)
        ensures
            r.well_formed(),
            !r.success,
            r.provider is None,
            r.input_tokens is None,
            r.output_tokens is None,
            r.error_status == Some(503u16),
            r.error_message matches Some(m) && m@ == all_open_message(),
    {
        Self {
            provider: None,
            input_tokens: None,
            output_tokens: None,
            success: false,
            error_status: Some(503),
            error_message: Some(String::from_str("All candidate providers have open circuits")),
        }
    }

    /// The outcome of a request that ran into the deadline: status 504, and
    /// as provider the one that was tried last.
    pub fn timed_out(attempts: &[AttemptRecord]) -> (r: Self)
        ensures
            r.well_formed(),
            !r.success,
            match r.provider {
                Some(p) => attempts@.len() > 0 && p@ == attempts@.last().provider_name@,
                None => attempts@.len() == 0,
            },
            r.input_tokens is None,
            r.output_tokens is None,
            r.error_status == Some(504u16),
            r.error_message matches Some(m) && m@ == timeout_message(),
    {
        let provider = if attempts.len() > 0 {
            Some(attempts[attempts.len() - 1].provider_name.clone())
        } else {
            None
        };
        Self {
            provider,
            input_tokens: None,
            output_tokens: None,
            success: false,
            error_status: Some(504),
            error_message: Some(
                String::from_str("Request timed out after 30 seconds (retry budget exhausted)"),
            ),
        }
    }
}

/// What the log row of a streamed response says once the stream is over.
#[derive(Debug, Clone)]
pub struct StreamCompletion {
    pub input_tokens: Option<u32>,
    pub output_tokens: Option<u32>,
    pub success: bool,
    pub error_message: Option<String>,
}

/// Why a stream counts as failed: none where `[DONE]` was received. A stream
/// that the provider ended or broke off before that was aborted; one that
/// was given up while the provider was still sending lost its client.
pub open spec fn completion_message(done_received: bool, upstream_ended: bool) -> Option<
    Seq<char>,
> {
    if done_received {
        None
    } else if upstream_ended {
        Some("stream_aborted"@)
    } else {
        Some("client_disconnected"@)
    }
}

/// The end of a streamed response, for its log row. `upstream_ended` says
/// whether the provider's stream had come to its end, or to an error, when
/// the observation stopped. Only a stream that received `[DONE]` succeeded,
/// and only such a stream reports token counts.
pub fn stream_completion(result: &StreamResult, upstream_ended: bool) -> (r: StreamCompletion)
    ensures
        r.success == result.done_received,
        r.input_tokens == match result.usage {
            Some(u) if result.done_received => Some(u.prompt_tokens),
            _ => None,
        },
        r.output_tokens == match result.usage {
            Some(u) if result.done_received => Some(u.completion_tokens),
            _ => None,
        },
        match r.error_message {
            Some(m) => completion_message(result.done_received, upstream_ended) == Some(m@),
            None => completion_message(result.done_received, upstream_ended) is None,
        },
{
    if result.done_received {
        let (input_tokens, output_tokens) = match &result.usage {
            Some(u) => (Some(u.prompt_tokens), Some(u.completion_tokens)),
            None => (None, None),
        };
        StreamCompletion { input_tokens, output_tokens, success: true, error_message: None }
    } else {
        let reason = if upstream_ended {
            "stream_aborted"
        } else {
            "client_disconnected"
        };
        StreamCompletion {
            input_tokens: None,
            output_tokens: None,
            success: false,
            error_message: Some(String::from_str(reason)),
        }
    }
}

/// The models of the first `count` providers, one after the other.
pub open spec fn offered_models(providers: Seq<ProviderConfig>, count: int) -> Seq<Seq<char>>
    decreases count,
{
    if count <= 0 {
        Seq::empty()
    } else {
        offered_models(providers, count - 1) + providers[count - 1].models@.map_values(
            |m: String| m@,
        )
    }
}

/// The words of a list, each once, in order of first appearance.
pub open spec fn each_once(words: Seq<Seq<char>>) -> Seq<Seq<char>>
    decreases words.len(),
{
    if words.len() == 0 {
        Seq::empty()
    } else {
        let before = each_once(words.drop_last());
        if before.contains(words.last()) {
            before
        } else {
            before.push(words.last())
        }
    }
}

/// The views of a list of strings.
pub open spec fn words_view(words: Seq<String>) -> Seq<Seq<char>> {
    words.map_values(|w: String| w@)
}

/// The models that the providers offer: each model once, in the order in
/// which the configuration first names it.
pub fn list_models(providers: &[ProviderConfig]) -> (r: Vec<String>)
    ensures
        words_view(r@) == each_once(offered_models(providers@, providers@.len() as int)),
{
    let mut models: Vec<String> = Vec::new();
    let mut i: usize = 0;
    while i < providers.len()
        invariant
            i <= providers@.len(),
            words_view(models@) == each_once(offered_models(providers@, i as int)),
        decreases providers@.len() - i,
    {
        let offered = &providers[i].models;
        let ghost before = offered_models(providers@, i as int);
        let ghost these = offered@.map_values(|m: String| m@);
        let mut k: usize = 0;
        assert(before + these.take(0) =~= before);
        while k < offered.len()
            invariant
                k <= offered@.len(),
                these == offered@.map_values(|m: String| m@),
                words_view(models@) == each_once(before + these.take(k as int)),
            decreases offered@.len() - k,
        {
            let ghost sofar = before + these.take(k as int);
            let ghost next = before + these.take(k + 1);
            proof {
                assert(next.drop_last() =~= sofar);
                assert(next.last() == offered@[k as int]@);
            }
            let mut seen = false;
            let mut j: usize = 0;
            while j < models.len()
                invariant
                    j <= models@.len(),
                    k < offered@.len(),
                    seen == exists|x: int| 0 <= x < j && #[trigger] models@[x]@ == offered@[k as int]@,
                decreases models@.len() - j,
            {
                if str_eq(models[j].as_str(), offered[k].as_str()) {
                    seen = true;
                }
                j += 1;
            }
            proof {
                let listed = words_view(models@);
                if seen {
                    let x = choose|x: int|
                        0 <= x < models@.len() && #[trigger] models@[x]@ == offered@[k as int]@;
                    assert(listed[x] == offered@[k as int]@);
                } else {
                    if listed.contains(offered@[k as int]@) {
                        let x = choose|x: int|
                            0 <= x < listed.len() && listed[x] == offered@[k as int]@;
                        assert(models@[x]@ == offered@[k as int]@);
                    }
                }
                assert(seen == listed.contains(offered@[k as int]@));
            }
            if !seen {
                let ghost listed = words_view(models@);
                models.push(offered[k].clone());
                assert(words_view(models@) =~= listed.push(offered@[k as int]@));
            }
            k += 1;
        }
        assert(these.take(k as int) =~= these);
        i += 1;
    }
    models
}

} // verus!
