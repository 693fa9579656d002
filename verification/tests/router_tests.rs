use arbstr::config::{PolicyRule, ProviderConfig};
use arbstr::error::Error;
use arbstr::router::selector::actual_cost_msats;
use arbstr::router::Router;

/// The cost as a fraction, from the exact cost in thousandths.
fn actual_cost(
    input_tokens: u32,
    output_tokens: u32,
    input_rate: u64,
    output_rate: u64,
    base_fee: u64,
) -> f64 {
    actual_cost_msats(input_tokens, output_tokens, input_rate, output_rate, base_fee) as f64
        / 1000.0
}

fn test_providers() -> Vec<ProviderConfig> {
    vec![
        ProviderConfig {
            name: "cheap".to_string(),
            url: "https://cheap.example.com/v1".to_string(),
            api_key: None,
            models: vec!["gpt-4o".to_string(), "gpt-4o-mini".to_string()],
            input_rate: 5,
            output_rate: 15,
            base_fee: 0,
        },
        ProviderConfig {
            name: "expensive".to_string(),
            url: "https://expensive.example.com/v1".to_string(),
            api_key: None,
            models: vec!["gpt-4o".to_string(), "mistral-large".to_string()],
            input_rate: 10,
            output_rate: 30,
            base_fee: 1,
        },
    ]
}

#[test]
fn test_select_cheapest() {
    let router = Router::new(test_providers(), vec![], "cheapest".to_string());

    let selected = router.select("gpt-4o", None, None).unwrap();
    assert_eq!(selected.name, "cheap");
}

#[test]
fn test_no_providers_for_model() {
    let router = Router::new(test_providers(), vec![], "cheapest".to_string());

    let result = router.select("nonexistent-model", None, None);
    assert!(matches!(result, Err(Error::NoProviders { .. })));
}

#[test]
fn test_base_fee_affects_cheapest_selection() {
    // low-rate-high-fee(output_rate=10, base_fee=8) vs high-rate-no-fee(output_rate=15, base_fee=0)
    // Routing cost: 10+8=18 vs 15+0=15 -> "high-rate-no-fee" wins
    let providers = vec![
        ProviderConfig {
            name: "low-rate-high-fee".to_string(),
            url: "https://a.example.com/v1".to_string(),
            api_key: None,
            models: vec!["gpt-4o".to_string()],
            input_rate: 5,
            output_rate: 10,
            base_fee: 8,
        },
        ProviderConfig {
            name: "high-rate-no-fee".to_string(),
            url: "https://b.example.com/v1".to_string(),
            api_key: None,
            models: vec!["gpt-4o".to_string()],
            input_rate: 8,
            output_rate: 15,
            base_fee: 0,
        },
    ];

    let router = Router::new(providers, vec![], "cheapest".to_string());
    let selected = router.select("gpt-4o", None, None).unwrap();
    assert_eq!(
        selected.name, "high-rate-no-fee",
        "Provider with lower output_rate+base_fee (15+0=15) should beat (10+8=18)"
    );
}

#[test]
fn test_actual_cost_calculation() {
    // (100*10 + 200*30)/1000.0 + 1 = 8.0
    let cost1 = actual_cost(100, 200, 10, 30, 1);
    assert!(
        (cost1 - 8.0).abs() < f64::EPSILON,
        "expected 8.0, got {cost1}"
    );

    // (10*5 + 5*15)/1000.0 + 0 = 0.125
    let cost2 = actual_cost(10, 5, 5, 15, 0);
    assert!(
        (cost2 - 0.125).abs() < f64::EPSILON,
        "expected 0.125, got {cost2}"
    );

    // (0*10 + 0*30)/1000.0 + 5 = 5.0 (base_fee only)
    let cost3 = actual_cost(0, 0, 10, 30, 5);
    assert!(
        (cost3 - 5.0).abs() < f64::EPSILON,
        "expected 5.0, got {cost3}"
    );

    // (1000*10 + 1000*30)/1000.0 + 0 = 40.0
    let cost4 = actual_cost(1000, 1000, 10, 30, 0);
    assert!(
        (cost4 - 40.0).abs() < f64::EPSILON,
        "expected 40.0, got {cost4}"
    );
}

#[test]
fn test_actual_cost_fractional_sats() {
    // Verify sub-sat precision: (10*5 + 5*15)/1000.0 = 0.125, not 0
    let cost = actual_cost(10, 5, 5, 15, 0);
    assert!(cost > 0.0, "Fractional sats must be preserved, got {cost}");
    assert!(
        (cost - 0.125).abs() < f64::EPSILON,
        "Expected 0.125, got {cost}"
    );
}

#[test]
fn test_policy_keyword_matching() {
    let policies = vec![PolicyRule {
        name: "code".to_string(),
        allowed_models: vec!["gpt-4o".to_string()],
        strategy: "lowest_cost".to_string(),
        max_sats_per_1k_output: Some(20),
        keywords: vec!["function".to_string(), "code".to_string()],
    }];

    let router = Router::new(test_providers(), policies, "cheapest".to_string());

    // Should match "code" policy and select cheap provider (under 20 sats)
    let selected = router
        .select("gpt-4o", None, Some("Write a function to sort"))
        .unwrap();
    assert_eq!(selected.name, "cheap");
}

#[test]
fn test_select_candidates_returns_ordered_list() {
    // Three providers at different costs for gpt-4o
    let providers = vec![
        ProviderConfig {
            name: "medium".to_string(),
            url: "https://medium.example.com/v1".to_string(),
            api_key: None,
            models: vec!["gpt-4o".to_string()],
            input_rate: 8,
            output_rate: 20,
            base_fee: 5, // routing cost: 25
        },
        ProviderConfig {
            name: "cheapest".to_string(),
            url: "https://cheapest.example.com/v1".to_string(),
            api_key: None,
            models: vec!["gpt-4o".to_string()],
            input_rate: 3,
            output_rate: 10,
            base_fee: 0, // routing cost: 10
        },
        ProviderConfig {
            name: "pricey".to_string(),
            url: "https://pricey.example.com/v1".to_string(),
            api_key: None,
            models: vec!["gpt-4o".to_string()],
            input_rate: 15,
            output_rate: 40,
            base_fee: 10, // routing cost: 50
        },
    ];

    let router = Router::new(providers, vec![], "cheapest".to_string());
    let candidates = router.select_candidates("gpt-4o", None, None).unwrap();

    assert_eq!(candidates.len(), 3);
    assert_eq!(candidates[0].name, "cheapest");
    assert_eq!(candidates[1].name, "medium");
    assert_eq!(candidates[2].name, "pricey");
}

#[test]
fn test_select_candidates_deduplicates_by_name() {
    // Two providers with the same name but different rates
    let providers = vec![
        ProviderConfig {
            name: "alpha".to_string(),
            url: "https://alpha-expensive.example.com/v1".to_string(),
            api_key: None,
            models: vec!["gpt-4o".to_string()],
            input_rate: 10,
            output_rate: 30,
            base_fee: 5, // routing cost: 35
        },
        ProviderConfig {
            name: "alpha".to_string(),
            url: "https://alpha-cheap.example.com/v1".to_string(),
            api_key: None,
            models: vec!["gpt-4o".to_string()],
            input_rate: 3,
            output_rate: 10,
            base_fee: 0, // routing cost: 10
        },
        ProviderConfig {
            name: "beta".to_string(),
            url: "https://beta.example.com/v1".to_string(),
            api_key: None,
            models: vec!["gpt-4o".to_string()],
            input_rate: 5,
            output_rate: 15,
            base_fee: 2, // routing cost: 17
        },
    ];

    let router = Router::new(providers, vec![], "cheapest".to_string());
    let candidates = router.select_candidates("gpt-4o", None, None).unwrap();

    // alpha appears twice in config but should only appear once in results
    assert_eq!(candidates.len(), 2);
    // cheapest alpha (cost 10) kept, expensive alpha (cost 35) removed
    assert_eq!(candidates[0].name, "alpha");
    assert_eq!(candidates[0].output_rate, 10);
    assert_eq!(candidates[1].name, "beta");
}

#[test]
fn test_select_delegates_to_candidates() {
    let router = Router::new(test_providers(), vec![], "cheapest".to_string());

    let selected = router.select("gpt-4o", None, None).unwrap();
    let candidates = router.select_candidates("gpt-4o", None, None).unwrap();

    assert_eq!(selected.name, candidates[0].name);
    assert_eq!(selected.url, candidates[0].url);
    assert_eq!(selected.output_rate, candidates[0].output_rate);
    assert_eq!(selected.base_fee, candidates[0].base_fee);
}

#[test]
fn test_select_candidates_filters_by_model() {
    let providers = vec![
        ProviderConfig {
            name: "has-model".to_string(),
            url: "https://a.example.com/v1".to_string(),
            api_key: None,
            models: vec!["gpt-4o".to_string()],
            input_rate: 5,
            output_rate: 15,
            base_fee: 0,
        },
        ProviderConfig {
            name: "no-model".to_string(),
            url: "https://b.example.com/v1".to_string(),
            api_key: None,
            models: vec!["mistral-large".to_string()],
            input_rate: 3,
            output_rate: 10,
            base_fee: 0,
        },
    ];

    let router = Router::new(providers, vec![], "cheapest".to_string());
    let candidates = router.select_candidates("gpt-4o", None, None).unwrap();

    assert_eq!(candidates.len(), 1);
    assert_eq!(candidates[0].name, "has-model");
}

#[test]
fn test_select_candidates_empty_returns_error() {
    let router = Router::new(test_providers(), vec![], "cheapest".to_string());

    let result = router.select_candidates("nonexistent-model", None, None);
    assert!(matches!(result, Err(Error::NoProviders { .. })));
}

fn provider(name: &str, models: &[&str], output_rate: u64, base_fee: u64) -> ProviderConfig {
    ProviderConfig {
        name: name.to_string(),
        url: format!("https://{}.example.com/v1", name),
        api_key: None,
        models: models.iter().map(|m| m.to_string()).collect(),
        input_rate: 1,
        output_rate,
        base_fee,
    }
}

fn rule(name: &str, allowed: &[&str], max: Option<u64>, keywords: &[&str]) -> PolicyRule {
    PolicyRule {
        name: name.to_string(),
        allowed_models: allowed.iter().map(|m| m.to_string()).collect(),
        strategy: "lowest_cost".to_string(),
        max_sats_per_1k_output: max,
        keywords: keywords.iter().map(|k| k.to_string()).collect(),
    }
}

#[test]
fn cost_tie_break_with_base_fee() {
    let router = Router::new(
        vec![provider("A", &["gpt-4o"], 10, 8), provider("B", &["gpt-4o"], 15, 0)],
        vec![],
        "cheapest".to_string(),
    );
    let candidates = router.select_candidates("gpt-4o", None, None).unwrap();
    assert_eq!(candidates[0].name, "B");
    assert_eq!(candidates[1].name, "A");
    assert_eq!(router.select("gpt-4o", None, None).unwrap().name, "B");
}

#[test]
fn exact_cost_in_thousandths() {
    assert_eq!(actual_cost_msats(10, 5, 5, 15, 0), 125);
    assert_eq!(actual_cost_msats(100, 200, 10, 30, 1), 8000);
    assert_eq!(actual_cost_msats(0, 0, 10, 30, 5), 5000);
    assert_eq!(
        actual_cost_msats(u32::MAX, u32::MAX, u64::MAX, u64::MAX, u64::MAX),
        2 * (u32::MAX as u128) * (u64::MAX as u128) + 1000 * (u64::MAX as u128)
    );
    assert_eq!(actual_cost(10, 5, 5, 15, 0), 0.125);
}

#[test]
fn candidates_are_sorted_and_deduplicated() {
    let providers = vec![
        provider("c", &[], 30, 0),
        provider("a", &["m"], 20, 5),
        provider("b", &["m"], 25, 0),
        provider("a", &["m"], 5, 5),
        provider("d", &["other"], 1, 0),
        provider("b", &["m", "x"], 25, 0),
        provider("a", &["m"], 10, 0),
        provider("e", &["m"], u64::MAX, u64::MAX),
    ];
    let router = Router::new(providers.clone(), vec![], "cheapest".to_string());
    let candidates = router.select_candidates("m", None, None).unwrap();
    let names: Vec<&str> = candidates.iter().map(|c| c.name.as_str()).collect();
    assert_eq!(names, vec!["a", "b", "c", "e"]);
    assert_eq!(candidates[0].output_rate, 5);
    assert_eq!(candidates[0].base_fee, 5);
    assert_eq!(candidates[1].url, "https://b.example.com/v1");
    for pair in candidates.windows(2) {
        let left = pair[0].output_rate as u128 + pair[0].base_fee as u128;
        let right = pair[1].output_rate as u128 + pair[1].base_fee as u128;
        assert!(left <= right);
    }
    assert_eq!(router.providers().len(), providers.len());
}

#[test]
fn equal_cost_keeps_configured_order() {
    let router = Router::new(
        vec![
            provider("z", &[], 10, 0),
            provider("y", &[], 4, 6),
            provider("x", &[], 0, 10),
            provider("y", &[], 10, 0),
        ],
        vec![],
        "cheapest".to_string(),
    );
    let candidates = router.select_candidates("any", None, None).unwrap();
    let names: Vec<&str> = candidates.iter().map(|c| c.name.as_str()).collect();
    assert_eq!(names, vec!["z", "y", "x"]);
    assert_eq!(candidates[1].output_rate, 4);
}

#[test]
fn policy_by_name_comes_before_keywords() {
    let providers = vec![provider("cheap", &["m"], 10, 0), provider("dear", &["m"], 50, 0)];
    let rules = vec![
        rule("loose", &[], None, &["essay"]),
        rule("tight", &["m"], Some(5), &[]),
        rule("mid", &["m"], Some(10), &["CODE"]),
    ];
    let router = Router::new(providers, rules, "cheapest".to_string());
    // Named policy wins although a keyword of another rule occurs.
    let err = router
        .select_candidates("m", Some("tight"), Some("an essay"))
        .unwrap_err();
    assert!(matches!(err, Error::NoPolicyMatch));
    assert_eq!(err.status_code(), 400);
    assert_eq!(err.message(), "No providers match policy constraints");
    // An unknown name falls back to the keywords, letter case aside.
    let picked = router
        .select_candidates("m", Some("unknown"), Some("Some code here"))
        .unwrap();
    assert_eq!(picked.len(), 1);
    assert_eq!(picked[0].name, "cheap");
    // The first rule with a keyword in the prompt applies.
    let both = router
        .select_candidates("m", None, Some("an essay about code"))
        .unwrap();
    assert_eq!(both.len(), 2);
    // No policy at all.
    assert_eq!(router.select_candidates("m", None, Some("hello")).unwrap().len(), 2);
    assert_eq!(router.find_policy(Some("mid"), None), Some(2));
    assert_eq!(router.find_policy(None, Some("decode this")), Some(2));
    assert_eq!(router.find_policy(None, None), None);
}

#[test]
fn policy_forbids_model() {
    let providers = vec![provider("p", &[], 10, 0)];
    let rules = vec![rule("only-a", &["a"], Some(0), &[])];
    let router = Router::new(providers, rules, "cheapest".to_string());
    let err = router.select_candidates("b", Some("only-a"), None).unwrap_err();
    match &err {
        Error::BadRequest(text) => {
            assert_eq!(text, "Model 'b' not allowed by policy 'only-a'")
        }
        other => panic!("unexpected error {:?}", other),
    }
    assert_eq!(
        err.message(),
        "Invalid request: Model 'b' not allowed by policy 'only-a'"
    );
    // The model is allowed, but the ceiling leaves no provider.
    let err = router.select_candidates("a", Some("only-a"), None).unwrap_err();
    assert!(matches!(err, Error::NoPolicyMatch));
    // No provider offers the model: that is reported first.
    let router = Router::new(
        vec![provider("p", &["a"], 10, 0)],
        vec![rule("only-a", &["a"], None, &[])],
        "cheapest".to_string(),
    );
    let err = router.select_candidates("b", Some("only-a"), None).unwrap_err();
    match &err {
        Error::NoProviders { model } => assert_eq!(model, "b"),
        other => panic!("unexpected error {:?}", other),
    }
    assert_eq!(err.message(), "No providers available for model 'b'");
}

#[test]
fn credentials_are_carried_over() {
    let mut with_key = provider("k", &[], 1, 0);
    with_key.api_key = Some(arbstr::config::ApiKey::new("secret".to_string()));
    let router = Router::new(vec![with_key], vec![], "cheapest".to_string());
    let selected = router.select("m", None, None).unwrap();
    assert_eq!(selected.api_key.unwrap().expose_secret(), "secret");
    assert_eq!(selected.input_rate, 1);
}
