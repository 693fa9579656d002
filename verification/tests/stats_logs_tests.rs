use arbstr::error::Error;
use arbstr::config::ProviderConfig;
use arbstr::proxy::logs::{
    error_section, order_keyword, paginate, sort_column, sort_direction, validate_sort_field,
    validate_sort_order,
};
use arbstr::proxy::stats::{
    check_filter, empty_notice, model_configured, provider_configured, range_between,
    resolve_time_range, validate_group_by, FilterKind, RangePreset, Timestamp,
};
use arbstr::text::eq_ignore_ascii_case;

const NOW: Timestamp = Timestamp {
    secs: 1_700_000_000,
    nanos: 5,
};

fn refusal(e: Error) -> String {
    match e {
        Error::BadRequest(text) => text,
        other => panic!("unexpected error {:?}", other),
    }
}

#[test]
fn range_presets() {
    assert_eq!(RangePreset::parse("last_1h"), Some(RangePreset::Last1h));
    assert_eq!(RangePreset::parse("last_24h"), Some(RangePreset::Last24h));
    assert_eq!(RangePreset::parse("last_7d"), Some(RangePreset::Last7d));
    assert_eq!(RangePreset::parse("last_30d"), Some(RangePreset::Last30d));
    assert_eq!(RangePreset::parse("LAST_1H"), None);
    assert_eq!(RangePreset::parse(""), None);
    assert_eq!(RangePreset::Last1h.duration(), 3600);
    assert_eq!(RangePreset::Last24h.duration(), 24 * 3600);
    assert_eq!(RangePreset::Last7d.duration(), 7 * 24 * 3600);
    assert_eq!(RangePreset::Last30d.duration(), 30 * 24 * 3600);
}

#[test]
fn time_range_defaults_to_seven_days() {
    let (since, until) = resolve_time_range(None, None, None, NOW).unwrap();
    assert_eq!(until, NOW);
    assert_eq!(
        since,
        Timestamp {
            secs: NOW.secs - 604_800,
            nanos: 5
        }
    );
    let (since, _) = resolve_time_range(Some("last_1h"), None, None, NOW).unwrap();
    assert_eq!(since.secs, NOW.secs - 3600);
}

#[test]
fn explicit_bounds_override_the_preset() {
    let (since, until) = resolve_time_range(
        Some("last_1h"),
        Some("2024-01-01T00:00:00Z"),
        Some("2024-01-02T01:00:00.25+01:00"),
        NOW,
    )
    .unwrap();
    assert_eq!(
        since,
        Timestamp {
            secs: 1_704_067_200,
            nanos: 0
        }
    );
    assert_eq!(
        until,
        Timestamp {
            secs: 1_704_153_600,
            nanos: 250_000_000
        }
    );
    // With `since` given, the preset is not even looked at.
    assert!(resolve_time_range(Some("bogus"), Some("2024-01-01T00:00:00Z"), None, NOW).is_ok());
}

#[test]
fn bad_ranges_are_refused() {
    let text = refusal(resolve_time_range(Some("last_year"), None, None, NOW).unwrap_err());
    assert_eq!(
        text,
        "Invalid range 'last_year'. Supported: last_1h, last_24h, last_7d, last_30d"
    );
    let text = refusal(resolve_time_range(None, Some("yesterday"), None, NOW).unwrap_err());
    assert!(text.starts_with("Invalid 'since' timestamp: "));
    assert!(text.len() > "Invalid 'since' timestamp: ".len());
    let text = refusal(resolve_time_range(None, None, Some("2024-13-01"), NOW).unwrap_err());
    assert!(text.starts_with("Invalid 'until' timestamp: "));
    // The start is resolved first.
    let text = refusal(resolve_time_range(None, Some("x"), Some("y"), NOW).unwrap_err());
    assert!(text.starts_with("Invalid 'since' timestamp: "));
}

#[test]
fn sort_fields_and_orders() {
    assert_eq!(validate_sort_field("timestamp").unwrap(), "timestamp");
    assert_eq!(validate_sort_field("cost_sats").unwrap(), "cost_sats");
    assert_eq!(validate_sort_field("latency_ms").unwrap(), "latency_ms");
    assert_eq!(
        refusal(validate_sort_field("id; DROP TABLE requests").unwrap_err()),
        "Invalid sort field 'id; DROP TABLE requests'. Valid options: timestamp, cost_sats, latency_ms"
    );
    assert!(validate_sort_field("Timestamp").is_err());
    assert_eq!(validate_sort_order("asc").unwrap(), "ASC");
    assert_eq!(validate_sort_order("DeSc").unwrap(), "DESC");
    assert_eq!(
        refusal(validate_sort_order("Up").unwrap_err()),
        "Invalid sort order 'Up'. Valid options: asc, desc"
    );
}

#[test]
fn pages() {
    let p = paginate(None, None, 0);
    assert_eq!((p.page, p.per_page, p.total_pages, p.offset), (1, 20, 0, 0));
    let p = paginate(Some(0), Some(0), 5);
    assert_eq!((p.page, p.per_page, p.total_pages, p.offset), (1, 1, 5, 0));
    let p = paginate(Some(3), Some(1000), 201);
    assert_eq!((p.page, p.per_page, p.total_pages, p.offset), (3, 100, 3, 200));
    let p = paginate(Some(2), Some(20), 40);
    assert_eq!((p.total_pages, p.offset), (2, 20));
    let p = paginate(Some(u32::MAX), Some(100), 1);
    assert_eq!(p.offset, (u32::MAX as u64 - 1) * 100);
    assert_eq!(paginate(None, Some(1), u32::MAX as i64).total_pages, u32::MAX);
    // Only the low 32 bits of the row count are looked at.
    assert_eq!(paginate(None, Some(10), (1i64 << 32) + 25).total_pages, 3);
    assert_eq!(paginate(None, Some(10), -1).total_pages, 429_496_730);
}

#[test]
fn ranges_from_bounds_that_were_read() {
    let at = |secs: i64| Timestamp { secs, nanos: 0 };
    assert_eq!(
        range_between(None, None, None, NOW).unwrap(),
        (
            Timestamp {
                secs: NOW.secs - 7 * 86_400,
                nanos: 5
            },
            NOW
        )
    );
    assert_eq!(
        range_between(Some("last_1h"), None, Some(Ok(at(9))), NOW).unwrap(),
        (
            Timestamp {
                secs: NOW.secs - 3_600,
                nanos: 5
            },
            at(9)
        )
    );
    assert_eq!(
        range_between(Some("no preset"), Some(Ok(at(1))), Some(Ok(at(2))), NOW).unwrap(),
        (at(1), at(2))
    );
    assert_eq!(
        refusal(range_between(None, Some(Err("too short".to_string())), None, NOW).unwrap_err()),
        "Invalid 'since' timestamp: too short"
    );
    assert_eq!(
        refusal(range_between(None, None, Some(Err("too short".to_string())), NOW).unwrap_err()),
        "Invalid 'until' timestamp: too short"
    );
    assert_eq!(
        refusal(
            range_between(
                Some("never"),
                None,
                Some(Err("too short".to_string())),
                NOW
            )
            .unwrap_err()
        ),
        "Invalid range 'never'. Supported: last_1h, last_24h, last_7d, last_30d"
    );
}

#[test]
fn statistics_are_grouped_by_model_only() {
    assert_eq!(validate_group_by(None).unwrap(), false);
    assert_eq!(validate_group_by(Some("model")).unwrap(), true);
    for word in ["provider", "Model", ""] {
        assert_eq!(
            refusal(validate_group_by(Some(word)).unwrap_err()),
            "Invalid group_by value. Supported: 'model'"
        );
    }
}

#[test]
fn statistics_over_no_requests_say_so() {
    assert_eq!(
        empty_notice(0).as_deref(),
        Some("No requests found in the specified time range")
    );
    assert!(empty_notice(1).is_none());
    assert!(empty_notice(-1).is_none());
}

fn offering(name: &str, models: &[&str]) -> ProviderConfig {
    ProviderConfig {
        name: name.to_string(),
        url: "https://example.com/v1".to_string(),
        api_key: None,
        models: models.iter().map(|m| m.to_string()).collect(),
        input_rate: 1,
        output_rate: 1,
        base_fee: 0,
    }
}

#[test]
fn filters_are_held_against_the_configuration() {
    let providers = vec![
        offering("Alpha", &["gpt-4o", "gpt-4o-mini"]),
        offering("beta", &[]),
        offering("gamma", &["Llama-3"]),
    ];
    assert!(model_configured(&providers, "gpt-4o"));
    assert!(model_configured(&providers, "GPT-4O-MINI"));
    assert!(model_configured(&providers, "llama-3"));
    assert!(!model_configured(&providers, "gpt-4"));
    assert!(!model_configured(&providers, ""));
    assert!(!model_configured(&[], "gpt-4o"));
    assert!(provider_configured(&providers, "alpha"));
    assert!(provider_configured(&providers, "BETA"));
    assert!(!provider_configured(&providers, "delta"));
    assert!(!provider_configured(&[], "alpha"));
}

#[test]
fn unknown_filter_values_are_not_found() {
    assert!(check_filter(FilterKind::Model, "m", true, false).is_none());
    assert!(check_filter(FilterKind::Model, "m", false, true).is_none());
    assert!(check_filter(FilterKind::Provider, "p", true, true).is_none());
    assert_eq!(
        check_filter(FilterKind::Model, "gpt-9", false, false).as_deref(),
        Some("Model 'gpt-9' not found")
    );
    assert_eq!(
        check_filter(FilterKind::Provider, "nobody", false, false).as_deref(),
        Some("Provider 'nobody' not found")
    );
}

#[test]
fn ascii_case_is_ignored_and_nothing_else() {
    assert!(eq_ignore_ascii_case("", ""));
    assert!(eq_ignore_ascii_case("Hello-World_9", "hELLO-wORLD_9"));
    assert!(!eq_ignore_ascii_case("hello", "hello "));
    assert!(!eq_ignore_ascii_case("a", "b"));
    assert!(!eq_ignore_ascii_case("@", "`"));
    assert!(!eq_ignore_ascii_case("[", "{"));
    assert!(eq_ignore_ascii_case("straße", "STRAßE"));
    assert!(!eq_ignore_ascii_case("é", "É"));
}

#[test]
fn listings_are_sorted_by_time_and_newest_first_by_default() {
    assert_eq!(sort_column(None).unwrap(), "timestamp");
    assert_eq!(sort_column(Some("cost_sats")).unwrap(), "cost_sats");
    assert_eq!(
        refusal(sort_column(Some("model")).unwrap_err()),
        "Invalid sort field 'model'. Valid options: timestamp, cost_sats, latency_ms"
    );
    assert_eq!(sort_direction(None).unwrap(), "DESC");
    assert_eq!(sort_direction(Some("Asc")).unwrap(), "ASC");
    assert_eq!(
        refusal(sort_direction(Some("up")).unwrap_err()),
        "Invalid sort order 'up'. Valid options: asc, desc"
    );
    assert_eq!(order_keyword("asc"), Some("ASC"));
    assert_eq!(order_keyword("desc"), Some("DESC"));
    assert_eq!(order_keyword("ASC"), None);
    assert_eq!(order_keyword(""), None);
}

#[test]
fn a_row_has_error_details_where_it_holds_any() {
    assert!(error_section(None, None).is_none());
    let status_only = error_section(Some(502), None).unwrap();
    assert_eq!(status_only.status, Some(502));
    assert!(status_only.message.is_none());
    let message_only = error_section(None, Some("client_disconnected".to_string())).unwrap();
    assert!(message_only.status.is_none());
    assert_eq!(message_only.message.as_deref(), Some("client_disconnected"));
    let both = error_section(Some(504), Some("late".to_string())).unwrap();
    assert_eq!(both.status, Some(504));
    assert_eq!(both.message.as_deref(), Some("late"));
}
