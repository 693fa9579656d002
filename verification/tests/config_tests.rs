use arbstr::config::{
    convention_env_var_name, expand_env_vars_with, permissions_too_wide, ApiKey, Config,
    ConfigError, DatabaseConfig, KeySource, LoggingConfig, PoliciesConfig, ProviderConfig,
    ServerConfig,
};

#[test]
fn test_expand_single_var() {
    let lookup = |name: &str| match name {
        "MY_KEY" => Some("cashuABCD".to_string()),
        _ => None,
    };
    let result = expand_env_vars_with("${MY_KEY}", "test", lookup).unwrap();
    assert_eq!(result, "cashuABCD");
}

#[test]
fn test_expand_multiple_vars() {
    let lookup = |name: &str| match name {
        "SCHEME" => Some("https".to_string()),
        "HOST" => Some("example.com".to_string()),
        _ => None,
    };
    let result = expand_env_vars_with("${SCHEME}://${HOST}/v1", "test", lookup).unwrap();
    assert_eq!(result, "https://example.com/v1");
}

#[test]
fn test_expand_no_vars_passthrough() {
    let lookup = |_: &str| -> Option<String> { panic!("should not be called") };
    let result = expand_env_vars_with("literal-value", "test", lookup).unwrap();
    assert_eq!(result, "literal-value");
}

#[test]
fn test_expand_mixed_literal_and_var() {
    let lookup = |name: &str| match name {
        "KEY" => Some("resolved".to_string()),
        _ => None,
    };
    let result = expand_env_vars_with("prefix-${KEY}-suffix", "test", lookup).unwrap();
    assert_eq!(result, "prefix-resolved-suffix");
}

#[test]
fn test_expand_missing_var_fails() {
    let lookup = |_: &str| None;
    let result = expand_env_vars_with("${MISSING}", "provider-alpha", lookup);
    assert!(result.is_err());
    let err = result.unwrap_err().message();
    assert!(err.contains("MISSING"), "Error should name the variable");
    assert!(
        err.contains("provider-alpha"),
        "Error should name the provider"
    );
}

#[test]
fn test_expand_unclosed_brace_fails() {
    let lookup = |_: &str| -> Option<String> { panic!("should not be called") };
    let result = expand_env_vars_with("${UNCLOSED", "test", lookup);
    assert!(result.is_err());
    let err = result.unwrap_err().message().to_lowercase();
    assert!(
        err.contains("unclosed"),
        "Error should mention unclosed brace"
    );
}

#[test]
fn test_expand_empty_var_name_fails() {
    let lookup = |_: &str| -> Option<String> { panic!("should not be called") };
    let result = expand_env_vars_with("${}", "test", lookup);
    assert!(result.is_err());
    let err = result.unwrap_err().message().to_lowercase();
    assert!(
        err.contains("empty"),
        "Error should mention empty variable name"
    );
}

#[test]
fn test_expand_dollar_without_brace_passthrough() {
    let lookup = |_: &str| -> Option<String> { panic!("should not be called") };
    let result = expand_env_vars_with("$NOT_A_VAR", "test", lookup).unwrap();
    assert_eq!(result, "$NOT_A_VAR");
}

#[test]
fn expand_reports_exact_errors() {
    let missing = expand_env_vars_with("a${X}b", "p", |_: &str| None).unwrap_err();
    match missing {
        ConfigError::EnvVar { var, provider, message } => {
            assert_eq!(var, "X");
            assert_eq!(provider, "p");
            assert_eq!(
                message,
                "Environment variable 'X' is not set (referenced in provider 'p')"
            );
        }
        other => panic!("unexpected error {:?}", other),
    }
    let unclosed = expand_env_vars_with("a${X", "p", |_: &str| None).unwrap_err();
    match unclosed {
        ConfigError::EnvVar { var, provider, message } => {
            assert_eq!(var, "<unclosed>");
            assert_eq!(provider, "p");
            assert_eq!(message, "Unclosed '${' in config value: a${X");
        }
        other => panic!("unexpected error {:?}", other),
    }
    let empty = expand_env_vars_with("${}", "p", |_: &str| None).unwrap_err();
    match empty {
        ConfigError::EnvVar { var, message, .. } => {
            assert_eq!(var, "");
            assert_eq!(message, "Empty variable name in '${}' reference");
        }
        other => panic!("unexpected error {:?}", other),
    }
}

#[test]
fn expand_stops_at_the_first_failure() {
    let lookup = |name: &str| match name {
        "A" => Some("1".to_string()),
        _ => None,
    };
    let err = expand_env_vars_with("${A}${B}${", "p", lookup).unwrap_err();
    assert!(matches!(err, ConfigError::EnvVar { ref var, .. } if var == "B"));
    let value = expand_env_vars_with("x${A}y${A}", "p", lookup).unwrap();
    assert_eq!(value, "x1y1");
}

#[test]
fn test_convention_env_var_name_simple() {
    assert_eq!(convention_env_var_name("alpha"), "ARBSTR_ALPHA_API_KEY");
}

#[test]
fn test_convention_env_var_name_hyphen() {
    assert_eq!(
        convention_env_var_name("provider-beta"),
        "ARBSTR_PROVIDER_BETA_API_KEY"
    );
}

#[test]
fn test_convention_env_var_name_underscore() {
    assert_eq!(
        convention_env_var_name("my_service"),
        "ARBSTR_MY_SERVICE_API_KEY"
    );
}

#[test]
fn convention_name_replaces_every_other_character() {
    assert_eq!(
        convention_env_var_name("my service.v2"),
        "ARBSTR_MY_SERVICE_V2_API_KEY"
    );
}

#[test]
fn test_api_key_debug_redaction() {
    let key = ApiKey::new("super-secret-cashu-token".to_string());
    let debug_output = format!("{:?}", key);
    assert!(debug_output.contains("[REDACTED]"));
    assert!(!debug_output.contains("super-secret"));
}

#[test]
fn test_api_key_display_redaction() {
    let key = ApiKey::new("super-secret-cashu-token".to_string());
    let display_output = key.redacted();
    assert_eq!(display_output, "[REDACTED]");
    assert!(!display_output.contains("super-secret"));
}

#[test]
fn test_api_key_expose_secret() {
    let key = ApiKey::new("the-actual-value".to_string());
    assert_eq!(key.expose_secret(), "the-actual-value");
}

#[test]
fn api_key_clone_keeps_the_value() {
    let key = ApiKey::new("abc".to_string());
    let copy = key.clone();
    assert_eq!(copy.expose_secret(), "abc");
}

#[test]
fn test_provider_config_debug_redaction() {
    let config = ProviderConfig {
        name: "test".to_string(),
        url: "https://example.com/v1".to_string(),
        api_key: Some(ApiKey::new("cashuABCD1234secret".to_string())),
        models: vec![],
        input_rate: 10,
        output_rate: 30,
        base_fee: 1,
    };
    let debug_output = format!("{:?}", config);
    assert!(
        debug_output.contains("[REDACTED]"),
        "Debug output should contain [REDACTED]"
    );
    assert!(
        !debug_output.contains("cashuABCD1234secret"),
        "Debug output must not contain actual key"
    );
}

fn config_with(urls: &[&str]) -> Config {
    Config {
        server: ServerConfig {
            listen: "127.0.0.1:9000".to_string(),
        },
        database: None,
        providers: urls
            .iter()
            .enumerate()
            .map(|(i, u)| ProviderConfig {
                name: format!("provider-{}", i),
                url: u.to_string(),
                api_key: None,
                models: vec![],
                input_rate: 0,
                output_rate: 0,
                base_fee: 0,
            })
            .collect(),
        policies: PoliciesConfig::default(),
        logging: LoggingConfig::default(),
    }
}

#[test]
fn validate_rejects_the_first_empty_url() {
    assert!(config_with(&["https://a", "https://b"]).validate().is_ok());
    assert!(config_with(&[]).validate().is_ok());
    let err = config_with(&["https://a", "", ""]).validate().unwrap_err();
    assert_eq!(
        err.message(),
        "Configuration validation error: Provider 'provider-1' has empty URL"
    );
}

#[test]
fn database_defaults_to_the_local_file() {
    let mut config = config_with(&[]);
    assert_eq!(config.database().path, "./arbstr.db");
    config.database = Some(DatabaseConfig {
        path: ":memory:".to_string(),
    });
    assert_eq!(config.database().path, ":memory:");
    assert_eq!(DatabaseConfig::default().path, "./arbstr.db");
    assert_eq!(LoggingConfig::default().level, "info");
    assert!(LoggingConfig::default().log_requests);
}

#[test]
fn key_source_labels() {
    assert_eq!(KeySource::Literal.label(), "config-literal");
    assert_eq!(KeySource::EnvExpanded.label(), "env-expanded");
    assert_eq!(
        KeySource::Convention("ARBSTR_A_API_KEY".to_string()).label(),
        "convention (ARBSTR_A_API_KEY)"
    );
    assert_eq!(KeySource::Missing.label(), "none");
}

fn make_raw_config(provider_name: &str, api_key: Option<String>) -> arbstr::config::RawConfig {
    arbstr::config::RawConfig {
        server: ServerConfig {
            listen: "127.0.0.1:9000".to_string(),
        },
        database: None,
        providers: vec![arbstr::config::RawProviderConfig {
            name: provider_name.to_string(),
            url: "https://example.com/v1".to_string(),
            api_key,
            models: vec![],
            input_rate: 0,
            output_rate: 0,
            base_fee: 0,
        }],
        policies: PoliciesConfig::default(),
        logging: LoggingConfig::default(),
    }
}

fn no_environment(_: &str) -> Option<String> {
    None
}

#[test]
fn test_from_raw_literal_key() {
    let raw = make_raw_config("test-literal", Some("literal-key-value".to_string()));
    let (config, key_sources) = Config::from_raw(raw, no_environment).unwrap();

    assert_eq!(key_sources.len(), 1);
    assert_eq!(key_sources[0].0, "test-literal");
    assert_eq!(key_sources[0].1, KeySource::Literal);
    assert_eq!(
        config.providers[0]
            .api_key
            .as_ref()
            .unwrap()
            .expose_secret(),
        "literal-key-value"
    );
}

#[test]
fn test_from_raw_env_expanded_key() {
    let var_name = "TEST_06_01_EXPAND_KEY";
    let var_value = "cashu-expanded-token-abc123";
    let environment = |name: &str| {
        if name == var_name {
            Some(var_value.to_string())
        } else {
            None
        }
    };

    let raw = make_raw_config("test-env-expand", Some(format!("${{{}}}", var_name)));
    let (config, key_sources) = Config::from_raw(raw, environment).unwrap();

    assert_eq!(key_sources[0].1, KeySource::EnvExpanded);
    assert_eq!(
        config.providers[0]
            .api_key
            .as_ref()
            .unwrap()
            .expose_secret(),
        var_value
    );
}

#[test]
fn test_from_raw_convention_key() {
    let provider_name = "test-conv-0601";
    let var_name = convention_env_var_name(provider_name);
    let var_value = "cashu-convention-token-xyz789";
    let environment = |name: &str| {
        if name == var_name {
            Some(var_value.to_string())
        } else {
            None
        }
    };

    let raw = make_raw_config(provider_name, None);
    let (config, key_sources) = Config::from_raw(raw, environment).unwrap();

    assert_eq!(key_sources[0].1, KeySource::Convention(var_name.clone()));
    assert_eq!(var_name, "ARBSTR_TEST_CONV_0601_API_KEY");
    assert_eq!(
        config.providers[0]
            .api_key
            .as_ref()
            .unwrap()
            .expose_secret(),
        var_value
    );
}

#[test]
fn test_from_raw_no_key() {
    let provider_name = "test-nokey-0601-unique";

    let raw = make_raw_config(provider_name, None);
    let (config, key_sources) = Config::from_raw(raw, no_environment).unwrap();

    assert_eq!(key_sources[0].1, KeySource::Missing);
    assert!(config.providers[0].api_key.is_none());
}

#[test]
fn test_from_raw_missing_env_var_fails() {
    let var_name = "TEST_06_01_DEFINITELY_MISSING";

    let raw = make_raw_config("test-missing-env", Some(format!("${{{}}}", var_name)));
    let result = Config::from_raw(raw, no_environment);

    assert!(result.is_err());
    let err = result.unwrap_err().message();
    assert!(
        err.contains(var_name),
        "Error should name the variable: {}",
        err
    );
    assert!(
        err.contains("test-missing-env"),
        "Error should name the provider: {}",
        err
    );
}

#[test]
fn from_raw_keeps_order_and_fields() {
    let mut raw = make_raw_config("first", Some("k1".to_string()));
    raw.providers.push(arbstr::config::RawProviderConfig {
        name: "second".to_string(),
        url: "https://second/v1".to_string(),
        api_key: Some("${A}-${B}".to_string()),
        models: vec!["m1".to_string(), "m2".to_string()],
        input_rate: 1,
        output_rate: 2,
        base_fee: 3,
    });
    raw.database = Some(DatabaseConfig {
        path: "x.db".to_string(),
    });
    let environment = |name: &str| match name {
        "A" => Some("a".to_string()),
        "B" => Some("b".to_string()),
        _ => None,
    };
    let (config, sources) = Config::from_raw(raw, environment).unwrap();
    assert_eq!(config.server.listen, "127.0.0.1:9000");
    assert_eq!(config.database().path, "x.db");
    assert_eq!(config.providers.len(), 2);
    assert_eq!(config.providers[1].name, "second");
    assert_eq!(config.providers[1].url, "https://second/v1");
    assert_eq!(config.providers[1].models, vec!["m1", "m2"]);
    assert_eq!(
        (
            config.providers[1].input_rate,
            config.providers[1].output_rate,
            config.providers[1].base_fee
        ),
        (1, 2, 3)
    );
    assert_eq!(
        config.providers[1].api_key.as_ref().unwrap().expose_secret(),
        "a-b"
    );
    assert_eq!(sources[0], ("first".to_string(), KeySource::Literal));
    assert_eq!(sources[1], ("second".to_string(), KeySource::EnvExpanded));
}

#[test]
fn a_mode_is_too_wide_where_group_or_others_have_a_bit() {
    for mode in [0o600, 0o400, 0o700, 0o000, 0o100600, 0o4700] {
        assert!(!permissions_too_wide(mode), "{:o}", mode);
    }
    for mode in [0o644, 0o640, 0o604, 0o601, 0o610, 0o777, 0o100644, 0o077, 0o001] {
        assert!(permissions_too_wide(mode), "{:o}", mode);
    }
}
