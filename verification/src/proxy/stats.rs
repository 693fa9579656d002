//! Time ranges and counters of the statistics endpoint.
//!
//! A point in time is a [`Timestamp`]: seconds since the Unix epoch and the
//! nanoseconds past that second. The current time is passed in by the
//! caller; timestamps in RFC 3339 notation are read by `chrono`.

use crate::config::ProviderConfig;
use crate::error::{refuses_request, Error};
use crate::text::{eq_ignore_ascii_case, same_ignoring_ascii_case, str_eq, text_view};
use vstd::prelude::*;

verus! {

/// Query parameters of the statistics endpoint.
#[derive(Debug)]
pub struct StatsQuery {
    pub range: Option<String>,
    pub since: Option<String>,
    pub until: Option<String>,
    pub model: Option<String>,
    pub provider: Option<String>,
    pub group_by: Option<String>,
}

/// Request counts.
#[derive(Debug)]
pub struct CountsSection {
    pub total: i64,
    pub success: i64,
    pub error: i64,
    pub streaming: i64,
}

/// A preset time range.
#[derive(Debug, Clone, Copy, PartialEq, Eq, Structural)]
pub enum RangePreset {
    Last1h,
    Last24h,
    Last7d,
    Last30d,
}

/// A point in time.
#[derive(Debug, Clone, Copy, PartialEq, Eq, Structural)]
pub struct Timestamp {
    /// Seconds since the Unix epoch.
    pub secs: i64,
    /// Nanoseconds past the second.
    pub nanos: u32,
}

/// The preset that a word stands for.
pub open spec fn preset_of(word: Seq<char>) -> Option<RangePreset> {
    if word == "last_1h"@ {
        Some(RangePreset::Last1h)
    } else if word == "last_24h"@ {
        Some(RangePreset::Last24h)
    } else if word == "last_7d"@ {
        Some(RangePreset::Last7d)
    } else if word == "last_30d"@ {
        Some(RangePreset::Last30d)
    } else {
        None
    }
}

/// The length of a preset in seconds.
pub open spec fn preset_seconds(preset: RangePreset) -> i64 {
    match preset {
        RangePreset::Last1h => 3600,
        RangePreset::Last24h => 86400,
        RangePreset::Last7d => 604800,
        RangePreset::Last30d => 2592000,
    }
}

impl RangePreset {
    /// Reads a preset from its word.
    pub fn parse(s: &str) -> (r: Option<Self>)
        ensures
            r == preset_of(s@),
    {
        if str_eq(s, "last_1h") {
            Some(RangePreset::Last1h)
        } else if str_eq(s, "last_24h") {
            Some(RangePreset::Last24h)
        } else if str_eq(s, "last_7d") {
            Some(RangePreset::Last7d)
        } else if str_eq(s, "last_30d") {
            Some(RangePreset::Last30d)
        } else {
            None
        }
    }

    /// The length of the preset in seconds.
    pub fn duration(&self) -> (r: i64)
        ensures
            r == preset_seconds(*self),
    {
        match self {
            RangePreset::Last1h => 3600,
            RangePreset::Last24h => 86400,
            RangePreset::Last7d => 604800,
            RangePreset::Last30d => 2592000,
        }
    }
}

/// What `chrono::DateTime::parse_from_rfc3339` makes of a text: the point in
/// time, or the words of its error.
pub uninterp spec fn parsed_rfc3339(text: Seq<char>) -> Result<Timestamp, Seq<char>>;

/// Whether `r` is the parse `expected`.
pub open spec fn same_parse(r: Result<Timestamp, String>, expected: Result<Timestamp, Seq<char>>) -> bool {
    match r {
        Ok(t) => expected == Ok::<Timestamp, Seq<char>>(t),
        Err(m) => expected == Err::<Timestamp, Seq<char>>(m@),
    }
}

/// Calls `chrono::DateTime::parse_from_rfc3339`. Trusted: the outcome depends
/// on the text alone. The point in time is read with `timestamp` and
/// `timestamp_subsec_nanos`, the error with `to_string`.
#[verifier::external_body]
fn parse_rfc3339(text: &str) -> (r: Result<Timestamp, String>)
    ensures
        same_parse(r, parsed_rfc3339(text@)),
{
    chrono::DateTime::parse_from_rfc3339(text).map(
        |t| Timestamp { secs: t.timestamp(), nanos: t.timestamp_subsec_nanos() },
    ).map_err(|e| e.to_string())
}

/// The message for a range that is no preset.
pub open spec fn invalid_range_message(word: Seq<char>) -> Seq<char> {
    "Invalid range '"@ + word + "'. Supported: last_1h, last_24h, last_7d, last_30d"@
}

/// The message for a bound that is no timestamp.
pub open spec fn invalid_bound_message(which: Seq<char>, detail: Seq<char>) -> Seq<char> {
    "Invalid '"@ + which + "' timestamp: "@ + detail
}

/// What resolving a time range comes to.
pub ghost enum ResolvedRange {
    /// The range from the first to the second point in time.
    Range(Timestamp, Timestamp),
    /// The request is not acceptable, for this reason.
    Refused(Seq<char>),
}

/// A bound of a time range as it was read: a point in time, or the words of
/// the error.
pub open spec fn bound_view(bound: Option<Result<Timestamp, String>>) -> Option<
    Result<Timestamp, Seq<char>>,
> {
    match bound {
        Some(Ok(t)) => Some(Ok(t)),
        Some(Err(detail)) => Some(Err(detail@)),
        None => None,
    }
}

/// What a bound given as text was read as.
pub open spec fn bound_read(text: Option<Seq<char>>) -> Option<Result<Timestamp, Seq<char>>> {
    match text {
        Some(t) => Some(parsed_rfc3339(t)),
        None => None,
    }
}

/// The start of the range: `since` where it is given; else `now` less the
/// preset named by `range`; else `now` less seven days.
pub open spec fn range_start(
    range: Option<Seq<char>>,
    since: Option<Result<Timestamp, Seq<char>>>,
    now: Timestamp,
) -> Result<Timestamp, Seq<char>> {
    match since {
        Some(Ok(t)) => Ok(t),
        Some(Err(detail)) => Err(invalid_bound_message("since"@, detail)),
        None => match range {
            Some(word) => match preset_of(word) {
                Some(preset) => Ok(
                    Timestamp { secs: (now.secs - preset_seconds(preset)) as i64, nanos: now.nanos },
                ),
                None => Err(invalid_range_message(word)),
            },
            None => Ok(
                Timestamp {
                    secs: (now.secs - preset_seconds(RangePreset::Last7d)) as i64,
                    nanos: now.nanos,
                },
            ),
        },
    }
}

/// The time range of a query whose bounds were read already. An explicit
/// `since` or `until` overrides the preset; without either bound the range
/// ends now and spans the preset, seven days by default. The start is
/// resolved first.
pub open spec fn range_of(
    range: Option<Seq<char>>,
    since: Option<Result<Timestamp, Seq<char>>>,
    until: Option<Result<Timestamp, Seq<char>>>,
    now: Timestamp,
) -> ResolvedRange {
    match range_start(range, since, now) {
        Err(reason) => ResolvedRange::Refused(reason),
        Ok(start) => match until {
            Some(Ok(end)) => ResolvedRange::Range(start, end),
            Some(Err(detail)) => ResolvedRange::Refused(invalid_bound_message("until"@, detail)),
            None => ResolvedRange::Range(start, now),
        },
    }
}

/// The time range of a query whose bounds are given as text in RFC 3339
/// notation.
pub open spec fn resolved_range(
    range: Option<Seq<char>>,
    since: Option<Seq<char>>,
    until: Option<Seq<char>>,
    now: Timestamp,
) -> ResolvedRange {
    range_of(range, bound_read(since), bound_read(until), now)
}

/// Resolves the time range of a query whose bounds were read already.
pub fn range_between(
    range: Option<&str>,
    since: Option<Result<Timestamp, String>>,
    until: Option<Result<Timestamp, String>>,
    now: Timestamp,
) -> (r: Result<(Timestamp, Timestamp), Error>)
    requires
        now.secs >= i64::MIN + 2592000,
    ensures
        match range_of(text_view(range), bound_view(since), bound_view(until), now) {
            ResolvedRange::Range(start, end) => r == Ok::<(Timestamp, Timestamp), Error>(
                (start, end),
            ),
            ResolvedRange::Refused(reason) => r is Err && refuses_request(r->Err_0, reason),
        },
{
    let start = match since {
        Some(Ok(t)) => t,
        Some(Err(detail)) => {
            let mut message = String::from_str("Invalid 'since' timestamp: ");
            message.append(detail.as_str());
            proof {
                reveal_strlit("since");
                reveal_strlit("Invalid '");
                reveal_strlit("' timestamp: ");
                reveal_strlit("Invalid 'since' timestamp: ");
                assert("Invalid 'since' timestamp: "@ =~= "Invalid '"@ + "since"@
                    + "' timestamp: "@);
                assert(message@ =~= invalid_bound_message("since"@, detail@));
            }
            return Err(Error::BadRequest(message));
        },
        None => match range {
            Some(word) => match RangePreset::parse(word) {
                Some(preset) => Timestamp { secs: now.secs - preset.duration(), nanos: now.nanos },
                None => {
                    let mut message = String::from_str("Invalid range '");
                    message.append(word);
                    message.append("'. Supported: last_1h, last_24h, last_7d, last_30d");
                    return Err(Error::BadRequest(message));
                },
            },
            None => Timestamp { secs: now.secs - 604800, nanos: now.nanos },
        },
    };
    let end = match until {
        Some(Ok(t)) => t,
        Some(Err(detail)) => {
            let mut message = String::from_str("Invalid 'until' timestamp: ");
            message.append(detail.as_str());
            proof {
                reveal_strlit("until");
                reveal_strlit("Invalid '");
                reveal_strlit("' timestamp: ");
                reveal_strlit("Invalid 'until' timestamp: ");
                assert("Invalid 'until' timestamp: "@ =~= "Invalid '"@ + "until"@
                    + "' timestamp: "@);
                assert(message@ =~= invalid_bound_message("until"@, detail@));
            }
            return Err(Error::BadRequest(message));
        },
        None => now,
    };
    Ok((start, end))
}

/// Resolves the time range of a query against the current time. Bounds are
/// given in RFC 3339 notation.
pub fn resolve_time_range(
    range: Option<&str>,
    since: Option<&str>,
    until: Option<&str>,
    now: Timestamp,
) -> (r: Result<(Timestamp, Timestamp), Error>)
    requires
        now.secs >= i64::MIN + 2592000,
    ensures
        match resolved_range(text_view(range), text_view(since), text_view(until), now) {
            ResolvedRange::Range(start, end) => r == Ok::<(Timestamp, Timestamp), Error>(
                (start, end),
            ),
            ResolvedRange::Refused(reason) => r is Err && refuses_request(r->Err_0, reason),
        },
{
    let since_read = match since {
        Some(text) => Some(parse_rfc3339(text)),
        None => None,
    };
    let until_read = match until {
        Some(text) => Some(parse_rfc3339(text)),
        None => None,
    };
    assert(bound_view(since_read) == bound_read(text_view(since)));
    assert(bound_view(until_read) == bound_read(text_view(until)));
    range_between(range, since_read, until_read, now)
}

/// The message for a grouping that is not on offer.
pub open spec fn invalid_group_message() -> Seq<char> {
    "Invalid group_by value. Supported: 'model'"@
}

/// Checks the grouping asked for. The statistics can be grouped by model,
/// and by nothing else; the result says whether they are to be grouped.
pub fn validate_group_by(group_by: Option<&str>) -> (r: Result<bool, Error>)
    ensures
        match group_by {
            None => r == Ok::<bool, Error>(false),
            Some(word) => if word@ == "model"@ {
                r == Ok::<bool, Error>(true)
            } else {
                r is Err && refuses_request(r->Err_0, invalid_group_message())
            },
        },
{
    match group_by {
        None => Ok(false),
        Some(word) => if str_eq(word, "model") {
            Ok(true)
        } else {
            Err(Error::BadRequest(String::from_str("Invalid group_by value. Supported: 'model'")))
        },
    }
}

/// What the statistics say where no request was counted.
pub open spec fn empty_message() -> Seq<char> {
    "No requests found in the specified time range"@
}

/// The remark that goes with statistics over no requests at all.
pub fn empty_notice(total: i64) -> (r: Option<String>)
    ensures
        match r {
            Some(message) => total == 0 && message@ == empty_message(),
            None => total != 0,
        },
{
    if total == 0 {
        Some(String::from_str("No requests found in the specified time range"))
    } else {
        None
    }
}

/// Whether a provider lists the model, the case of ASCII letters aside.
pub open spec fn lists_model_loosely(provider: ProviderConfig, model: Seq<char>) -> bool {
    exists|j: int|
        0 <= j < provider.models@.len() && same_ignoring_ascii_case(
            #[trigger] provider.models@[j]@,
            model,
        )
}

/// Whether some provider lists the model, the case of ASCII letters aside.
pub open spec fn offers_model(providers: Seq<ProviderConfig>, model: Seq<char>) -> bool {
    exists|i: int| 0 <= i < providers.len() && lists_model_loosely(#[trigger] providers[i], model)
}

/// Whether some provider has the name, the case of ASCII letters aside.
pub open spec fn names_provider(providers: Seq<ProviderConfig>, name: Seq<char>) -> bool {
    exists|i: int|
        0 <= i < providers.len() && same_ignoring_ascii_case(#[trigger] providers[i].name@, name)
}

/// Whether the configuration offers the model that a filter names.
pub fn model_configured(providers: &[ProviderConfig], model: &str) -> (r: bool)
    ensures
        r == offers_model(providers@, model@),
{
    let mut i: usize = 0;
    while i < providers.len()
        invariant
            i <= providers@.len(),
            forall|k: int| 0 <= k < i ==> !lists_model_loosely(#[trigger] providers@[k], model@),
        decreases providers@.len() - i,
    {
        let models = &providers[i].models;
        let mut j: usize = 0;
        while j < models.len()
            invariant
                i < providers@.len(),
                models == &providers@[i as int].models,
                j <= models@.len(),
                forall|k: int|
                    0 <= k < j ==> !same_ignoring_ascii_case(#[trigger] models@[k]@, model@),
            decreases models@.len() - j,
        {
            if eq_ignore_ascii_case(models[j].as_str(), model) {
                assert(lists_model_loosely(providers@[i as int], model@));
                return true;
            }
            j += 1;
        }
        i += 1;
    }
    false
}

/// Whether the configuration has the provider that a filter names.
pub fn provider_configured(providers: &[ProviderConfig], name: &str) -> (r: bool)
    ensures
        r == names_provider(providers@, name@),
{
    let mut i: usize = 0;
    while i < providers.len()
        invariant
            i <= providers@.len(),
            forall|k: int|
                0 <= k < i ==> !same_ignoring_ascii_case(#[trigger] providers@[k].name@, name@),
        decreases providers@.len() - i,
    {
        if eq_ignore_ascii_case(providers[i].name.as_str(), name) {
            return true;
        }
        i += 1;
    }
    false
}

/// What a filter of the statistics and of the log listing names.
#[derive(Debug, Clone, Copy, PartialEq, Eq, Structural)]
pub enum FilterKind {
    Model,
    Provider,
}

/// The message for a filter value that is neither configured nor logged.
pub open spec fn unknown_filter_message(kind: FilterKind, value: Seq<char>) -> Seq<char> {
    match kind {
        FilterKind::Model => "Model '"@ + value + "' not found"@,
        FilterKind::Provider => "Provider '"@ + value + "' not found"@,
    }
}

/// Checks a filter value. A value is known where the configuration has it
/// or the log holds it; for any other one the result is the message to
/// answer with.
pub fn check_filter(kind: FilterKind, value: &str, configured: bool, logged: bool) -> (r: Option<
    String,
>)
    ensures
        match r {
            Some(message) => !configured && !logged && message@ == unknown_filter_message(
                kind,
                value@,
            ),
            None => configured || logged,
        },
{
    if configured || logged {
        return None;
    }
    let mut message = match kind {
        FilterKind::Model => String::from_str("Model '"),
        FilterKind::Provider => String::from_str("Provider '"),
    };
    message.append(value);
    message.append("' not found");
    Some(message)
}

} // verus!
