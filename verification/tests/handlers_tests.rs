use arbstr::json::Json;
use arbstr::proxy::circuit_breaker::{
    CircuitBreakerRegistry, CircuitSnapshot, CircuitState, PermitType,
};
use arbstr::proxy::handlers::{
    attach_arbstr_headers, attach_retries_header, circuit_report, extract_usage, is_cost_text,
    health_status, list_models, stream_completion, next_permitted, upstream_url, CircuitReport, HealthStatus, LoggedOutcome,
    PermitSearch,
};
use arbstr::config::ProviderConfig;
use arbstr::proxy::stream::{StreamResult, StreamUsage};
use arbstr::proxy::retry::{AttemptOutcome, AttemptRecord, CandidateInfo};

fn get<'a>(headers: &'a [(String, String)], name: &str) -> Option<&'a str> {
    headers
        .iter()
        .find(|(n, _)| n == name)
        .map(|(_, v)| v.as_str())
}

#[test]
fn test_extract_usage_present() {
    let response = Json::parse(
        r#"{"id":"chatcmpl-123","choices":[],"usage":{"prompt_tokens":100,"completion_tokens":200,"total_tokens":300}}"#,
    )
    .unwrap();
    let usage = extract_usage(&response);
    assert_eq!(usage, Some((100, 200)));
}

#[test]
fn test_extract_usage_missing() {
    let response = Json::parse(r#"{"id":"chatcmpl-123","choices":[]}"#).unwrap();
    let usage = extract_usage(&response);
    assert_eq!(usage, None);
}

#[test]
fn test_extract_usage_partial() {
    let response =
        Json::parse(r#"{"id":"chatcmpl-123","choices":[],"usage":{"prompt_tokens":100}}"#)
            .unwrap();
    let usage = extract_usage(&response);
    assert_eq!(usage, None);
}

#[test]
fn test_extract_usage_null() {
    let response = Json::parse(r#"{"id":"chatcmpl-123","choices":[],"usage":null}"#).unwrap();
    let usage = extract_usage(&response);
    assert_eq!(usage, None);
}

#[test]
fn json_lookups() {
    let doc = Json::parse(r#"{"a":[1,"x",null,{"b":true}],"a2":-3,"f":1.5,"dup":1,"dup":2}"#)
        .unwrap();
    let a = doc.get("a").unwrap();
    assert_eq!(a.get_index(0).unwrap().as_u64(), Some(1));
    assert_eq!(a.get_index(1).unwrap().as_str(), Some("x"));
    assert!(a.get_index(2).unwrap().is_null());
    assert!(a.get_index(3).unwrap().get("b").is_some());
    assert!(a.get_index(4).is_none());
    assert!(a.get("a").is_none());
    assert!(doc.get_index(0).is_none());
    assert_eq!(doc.get("a2").unwrap().as_u64(), None);
    assert_eq!(doc.get("f").unwrap().as_u64(), None);
    assert_eq!(doc.get("dup").unwrap().as_u64(), Some(2));
    assert!(doc.get("missing").is_none());
    assert!(Json::parse("{not json").is_none());
    assert!(Json::parse("").is_none());
    assert!(matches!(Json::parse(" 18446744073709551615 "), Some(Json::Number(Some(u64::MAX)))));
}

#[test]
fn test_attach_headers_non_streaming() {
    let headers = attach_arbstr_headers(
        "550e8400-e29b-41d4-a716-446655440000",
        1523,
        Some("provider-alpha"),
        Some("42.35"),
        false,
    );
    assert_eq!(
        get(&headers, "x-arbstr-request-id").unwrap(),
        "550e8400-e29b-41d4-a716-446655440000"
    );
    assert_eq!(get(&headers, "x-arbstr-latency-ms").unwrap(), "1523");
    assert_eq!(get(&headers, "x-arbstr-cost-sats").unwrap(), "42.35");
    assert_eq!(get(&headers, "x-arbstr-provider").unwrap(), "provider-alpha");
    assert!(get(&headers, "x-arbstr-streaming").is_none());
}

#[test]
fn test_attach_headers_streaming() {
    let headers = attach_arbstr_headers(
        "550e8400-e29b-41d4-a716-446655440000",
        500,
        Some("provider-beta"),
        Some("10.00"),
        true,
    );
    assert_eq!(
        get(&headers, "x-arbstr-request-id").unwrap(),
        "550e8400-e29b-41d4-a716-446655440000"
    );
    assert_eq!(get(&headers, "x-arbstr-streaming").unwrap(), "true");
    assert_eq!(get(&headers, "x-arbstr-provider").unwrap(), "provider-beta");
    assert!(get(&headers, "x-arbstr-cost-sats").is_none());
    assert!(get(&headers, "x-arbstr-latency-ms").is_none());
}

#[test]
fn test_attach_headers_error_no_provider() {
    let headers = attach_arbstr_headers(
        "abcd1234-0000-0000-0000-000000000000",
        50,
        None,
        None,
        false,
    );
    assert_eq!(
        get(&headers, "x-arbstr-request-id").unwrap(),
        "abcd1234-0000-0000-0000-000000000000"
    );
    assert_eq!(get(&headers, "x-arbstr-latency-ms").unwrap(), "50");
    assert!(get(&headers, "x-arbstr-provider").is_none());
    assert!(get(&headers, "x-arbstr-cost-sats").is_none());
    assert!(get(&headers, "x-arbstr-streaming").is_none());
}

#[test]
fn test_attach_headers_no_cost() {
    let headers = attach_arbstr_headers(
        "11111111-2222-3333-4444-555555555555",
        200,
        Some("provider-gamma"),
        None,
        false,
    );
    assert_eq!(
        get(&headers, "x-arbstr-request-id").unwrap(),
        "11111111-2222-3333-4444-555555555555"
    );
    assert_eq!(get(&headers, "x-arbstr-latency-ms").unwrap(), "200");
    assert_eq!(get(&headers, "x-arbstr-provider").unwrap(), "provider-gamma");
    assert!(get(&headers, "x-arbstr-cost-sats").is_none());
}

#[test]
fn test_attach_headers_cost_formatting() {
    let cost = format!("{:.2}", 0.10f64);
    let headers = attach_arbstr_headers(
        "00000000-0000-0000-0000-000000000000",
        100,
        Some("provider"),
        Some(&cost),
        false,
    );
    assert_eq!(get(&headers, "x-arbstr-cost-sats").unwrap(), "0.10");
}

#[test]
fn latency_is_written_as_an_unsigned_number() {
    let headers = attach_arbstr_headers("id", 0, None, None, false);
    assert_eq!(get(&headers, "x-arbstr-latency-ms").unwrap(), "0");
    let headers = attach_arbstr_headers("id", i64::MAX, None, None, false);
    assert_eq!(
        get(&headers, "x-arbstr-latency-ms").unwrap(),
        "9223372036854775807"
    );
    let headers = attach_arbstr_headers("id", -1, None, None, false);
    assert_eq!(
        get(&headers, "x-arbstr-latency-ms").unwrap(),
        "18446744073709551615"
    );
    let names: Vec<String> = attach_arbstr_headers("id", 1, Some("p"), Some("1.00"), false)
        .into_iter()
        .map(|(name, _)| name)
        .collect();
    assert_eq!(
        names,
        vec![
            "x-arbstr-request-id",
            "x-arbstr-latency-ms",
            "x-arbstr-cost-sats",
            "x-arbstr-provider"
        ]
    );
}

#[test]
fn retries_header_is_added_only_after_failures() {
    let mut headers = attach_arbstr_headers("id", 1, None, None, false);
    attach_retries_header(&mut headers, &[]);
    assert!(get(&headers, "x-arbstr-retries").is_none());
    let attempts = vec![
        AttemptRecord {
            provider_name: "alpha".to_string(),
            status_code: 503,
        },
        AttemptRecord {
            provider_name: "alpha".to_string(),
            status_code: 503,
        },
    ];
    attach_retries_header(&mut headers, &attempts);
    assert_eq!(get(&headers, "x-arbstr-retries").unwrap(), "2/alpha");
    assert_eq!(get(&headers, "x-arbstr-request-id").unwrap(), "id");
    let log = LoggedOutcome::timed_out(&attempts);
    assert!(!log.success);
    assert_eq!(log.error_status, Some(504));
    assert_eq!(log.provider.as_deref(), Some("alpha"));
    assert_eq!(
        log.error_message.as_deref(),
        Some("Request timed out after 30 seconds (retry budget exhausted)")
    );
    assert!(LoggedOutcome::timed_out(&[]).provider.is_none());
}

#[test]
fn logged_outcomes() {
    let ok = LoggedOutcome::succeeded("p", Some((3, 4)));
    assert!(ok.success);
    assert_eq!(ok.input_tokens, Some(3));
    assert_eq!(ok.output_tokens, Some(4));
    assert!(ok.error_status.is_none() && ok.error_message.is_none());
    let unknown = LoggedOutcome::succeeded("p", None);
    assert!(unknown.input_tokens.is_none() && unknown.output_tokens.is_none());
    let failed = LoggedOutcome::failed(None, 400, "No providers match policy constraints");
    assert!(!failed.success);
    assert!(failed.provider.is_none());
    assert_eq!(failed.error_status, Some(400));
    assert_eq!(
        failed.error_message.as_deref(),
        Some("No providers match policy constraints")
    );
    assert_eq!(
        LoggedOutcome::failed(Some("q"), 502, "x").provider.as_deref(),
        Some("q")
    );
}

#[test]
fn circuit_reports() {
    let normal = PermitType::Normal;
    let probe = PermitType::Probe;
    assert_eq!(
        circuit_report(normal, AttemptOutcome::Success),
        CircuitReport::Success
    );
    for status in [500u16, 502, 503, 504] {
        assert_eq!(
            circuit_report(normal, AttemptOutcome::Failure(status)),
            CircuitReport::Failure
        );
    }
    for status in [400u16, 404, 429, 501] {
        assert_eq!(
            circuit_report(normal, AttemptOutcome::Failure(status)),
            CircuitReport::Nothing
        );
        assert_eq!(
            circuit_report(probe, AttemptOutcome::Failure(status)),
            CircuitReport::ProbeFailure
        );
    }
    assert_eq!(
        circuit_report(probe, AttemptOutcome::Success),
        CircuitReport::ProbeSuccess
    );
}

fn snapshot(name: &str, state: CircuitState) -> CircuitSnapshot {
    CircuitSnapshot {
        name: name.to_string(),
        state,
        failure_count: 0,
    }
}

#[test]
fn health_of_the_providers() {
    let (closed, half_open, open) =
        (CircuitState::Closed, CircuitState::HalfOpen, CircuitState::Open);
    assert_eq!(health_status(&[]), HealthStatus::Healthy);
    assert_eq!(
        health_status(&[snapshot("a", closed), snapshot("b", closed)]),
        HealthStatus::Healthy
    );
    assert_eq!(
        health_status(&[snapshot("a", open), snapshot("b", closed)]),
        HealthStatus::Degraded
    );
    assert_eq!(
        health_status(&[snapshot("a", open), snapshot("b", open)]),
        HealthStatus::Unhealthy
    );
    assert_eq!(health_status(&[snapshot("a", open)]), HealthStatus::Unhealthy);
    assert_eq!(
        health_status(&[snapshot("a", half_open)]),
        HealthStatus::Degraded
    );
    assert_eq!(
        health_status(&[snapshot("a", half_open), snapshot("b", open)]),
        HealthStatus::Degraded
    );
    assert_eq!(HealthStatus::Healthy.as_str(), "ok");
    assert_eq!(HealthStatus::Degraded.as_str(), "degraded");
    assert_eq!(HealthStatus::Unhealthy.as_str(), "unhealthy");
    assert_eq!(HealthStatus::Healthy.http_status(), 200);
    assert_eq!(HealthStatus::Degraded.http_status(), 200);
    assert_eq!(HealthStatus::Unhealthy.http_status(), 503);
}

fn candidates(names: &[&str]) -> Vec<CandidateInfo> {
    names
        .iter()
        .map(|n| CandidateInfo {
            name: n.to_string(),
        })
        .collect()
}

fn trip(registry: &mut CircuitBreakerRegistry, name: &str) {
    for _ in 0..3 {
        registry.record_failure(name, "5xx", "down", 0);
    }
}

#[test]
fn open_circuits_are_skipped() {
    let list = candidates(&["a", "b", "c"]);
    let mut registry =
        CircuitBreakerRegistry::new(&["a".to_string(), "b".to_string(), "c".to_string()]);
    trip(&mut registry, "a");
    match next_permitted(&mut registry, &list, 0, 1000) {
        PermitSearch::Found { index, permit } => {
            assert_eq!(index, 1);
            assert_eq!(permit, PermitType::Normal);
        }
        other => panic!("unexpected {:?}", other),
    }
    trip(&mut registry, "b");
    trip(&mut registry, "c");
    assert!(matches!(
        next_permitted(&mut registry, &list, 0, 1000),
        PermitSearch::AllOpen
    ));
    assert!(matches!(
        next_permitted(&mut registry, &list, 3, 1000),
        PermitSearch::AllOpen
    ));
    // After the timeout the first candidate gets the probe; a second search
    // has to wait for it.
    match next_permitted(&mut registry, &list, 0, 31_000) {
        PermitSearch::Found { index, permit } => {
            assert_eq!(index, 0);
            assert_eq!(permit, PermitType::Probe);
        }
        other => panic!("unexpected {:?}", other),
    }
    match next_permitted(&mut registry, &list, 0, 31_000) {
        PermitSearch::Wait { index, error } => {
            assert_eq!(index, 0);
            assert_eq!(error.provider, "a");
            assert_eq!(error.trip_count, 1);
        }
        other => panic!("unexpected {:?}", other),
    }
    // The search from the second candidate on does not touch the first.
    match next_permitted(&mut registry, &list, 1, 31_000) {
        PermitSearch::Found { index, permit } => {
            assert_eq!(index, 1);
            assert_eq!(permit, PermitType::Probe);
        }
        other => panic!("unexpected {:?}", other),
    }
    assert_eq!(registry.state("c"), Some(CircuitState::Open));
}

#[test]
fn upstream_urls() {
    assert_eq!(
        upstream_url("https://api.example.com/v1"),
        "https://api.example.com/v1/chat/completions"
    );
    assert_eq!(
        upstream_url("https://api.example.com/v1///"),
        "https://api.example.com/v1/chat/completions"
    );
    assert_eq!(upstream_url(""), "/chat/completions");
    assert_eq!(upstream_url("//"), "/chat/completions");
}

#[test]
fn request_refused_by_open_circuits() {
    let log = LoggedOutcome::circuits_open();
    assert!(!log.success);
    assert!(log.provider.is_none());
    assert!(log.input_tokens.is_none() && log.output_tokens.is_none());
    assert_eq!(log.error_status, Some(503));
    assert_eq!(
        log.error_message.as_deref(),
        Some("All candidate providers have open circuits")
    );
}

fn offering(name: &str, models: &[&str]) -> ProviderConfig {
    ProviderConfig {
        name: name.to_string(),
        url: "https://example.com/v1".to_string(),
        api_key: None,
        models: models.iter().map(|m| m.to_string()).collect(),
        input_rate: 1,
        output_rate: 1,
        base_fee: 0,
    }
}

#[test]
fn models_are_listed_once_in_first_seen_order() {
    let providers = vec![
        offering("a", &["gpt-4o", "gpt-4o-mini"]),
        offering("b", &["mistral-large", "gpt-4o"]),
        offering("c", &[]),
        offering("d", &["gpt-4o-mini", "llama-3", "llama-3"]),
    ];
    assert_eq!(
        list_models(&providers),
        vec!["gpt-4o", "gpt-4o-mini", "mistral-large", "llama-3"]
    );
    assert!(list_models(&[]).is_empty());
}

#[test]
fn rejecting_is_read_without_changing_the_breaker() {
    let mut registry = CircuitBreakerRegistry::new(&["a".to_string(), "b".to_string()]);
    assert!(!registry.is_rejecting("a", 0));
    assert!(!registry.is_rejecting("unknown", 0));
    assert!(registry.can_record_failure("a"));
    assert!(registry.can_record_failure("unknown"));
    trip(&mut registry, "a");
    assert!(registry.is_rejecting("a", 0));
    assert!(registry.is_rejecting("a", 29_999));
    assert!(!registry.is_rejecting("a", 30_000));
    assert!(!registry.is_rejecting("b", 0));
    assert_eq!(registry.state("a"), Some(CircuitState::Open));
    assert_eq!(registry.trip_count("a"), Some(1));
    assert!(registry.can_record_failure("a"));
}

#[test]
fn the_shape_of_a_cost() {
    for text in ["0.00", "0.10", "1.00", "42.35", "340282366920938463463374607431768211456.00"] {
        assert!(is_cost_text(text), "{}", text);
    }
    for text in [
        "", ".", "0.1", ".10", "0.100", "0,10", "1.0e2", "-1.00", "+1.00", "1.00 ", " 1.00", "NaN",
        "inf", "1..00", "1.0.0", "10", "a.bc", "1.2x", "٠.٠٠",
    ] {
        assert!(!is_cost_text(text), "{}", text);
    }
}

#[test]
fn every_formatted_cost_has_the_shape() {
    let costs = [
        0.0f64,
        0.005,
        0.015,
        0.025,
        0.125,
        0.155,
        0.1,
        8.0,
        42.35,
        1e15,
        1.8446744073709552e19,
        7.922816251426434e28,
    ];
    for cost in costs {
        let text = format!("{:.2}", cost);
        assert!(is_cost_text(&text), "{}", text);
    }
}

#[test]
fn the_cost_header_carries_the_formatted_cost() {
    // One token at a rate of 5: the cost is 0.005, and the float is shown
    // as its formatting rounds it.
    let shown = |input: u32, output: u32, input_rate: u64, output_rate: u64, base_fee: u64| {
        let cost = (input as f64 * input_rate as f64 + output as f64 * output_rate as f64) / 1000.0
            + base_fee as f64;
        let text = format!("{:.2}", cost);
        let headers = attach_arbstr_headers("id", 1, None, Some(&text), false);
        get(&headers, "x-arbstr-cost-sats").unwrap().to_string()
    };
    assert_eq!(shown(1, 0, 5, 0, 0), "0.01");
    assert_eq!(shown(3, 0, 5, 0, 0), "0.01");
    assert_eq!(shown(5, 0, 5, 0, 0), "0.03");
    assert_eq!(shown(31, 0, 5, 0, 0), "0.15");
    assert_eq!(shown(10, 5, 5, 15, 0), "0.12");
    assert_eq!(shown(100, 200, 10, 30, 1), "8.00");
    assert_eq!(shown(0, 0, 0, 0, 0), "0.00");
    let streamed = attach_arbstr_headers("id", 1, None, Some("8.00"), true);
    assert!(get(&streamed, "x-arbstr-cost-sats").is_none());
}

#[test]
fn the_end_of_a_stream_for_the_log() {
    let done = StreamResult {
        usage: Some(StreamUsage {
            prompt_tokens: 10,
            completion_tokens: 5,
        }),
        finish_reason: Some("stop".to_string()),
        done_received: true,
    };
    for upstream_ended in [true, false] {
        let completion = stream_completion(&done, upstream_ended);
        assert!(completion.success);
        assert_eq!(completion.input_tokens, Some(10));
        assert_eq!(completion.output_tokens, Some(5));
        assert!(completion.error_message.is_none());
    }

    let partial = StreamResult {
        usage: Some(StreamUsage {
            prompt_tokens: 10,
            completion_tokens: 5,
        }),
        finish_reason: None,
        done_received: false,
    };
    let dropped = stream_completion(&partial, false);
    assert!(!dropped.success);
    assert!(dropped.input_tokens.is_none() && dropped.output_tokens.is_none());
    assert_eq!(dropped.error_message.as_deref(), Some("client_disconnected"));
    let aborted = stream_completion(&StreamResult::empty(), true);
    assert!(!aborted.success);
    assert_eq!(aborted.error_message.as_deref(), Some("stream_aborted"));

    let without_usage = StreamResult {
        usage: None,
        finish_reason: None,
        done_received: true,
    };
    let completion = stream_completion(&without_usage, true);
    assert!(completion.success);
    assert!(completion.input_tokens.is_none() && completion.output_tokens.is_none());
}
