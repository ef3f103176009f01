use std::collections::HashMap;

use docmost_local_mcp::startup_config::{
    StartupConfig, StartupError, ensure_base_url, normalize_base_url, parse_startup_config,
};

#[test]
fn reads_base_url_from_cli_arguments() {
    let argv = vec![
        "--base-url".to_string(),
        "https://docs.example.com/".to_string(),
    ];
    let config = parse_startup_config(&argv, &HashMap::new()).unwrap();
    assert_eq!(config.base_url.as_deref(), Some("https://docs.example.com"));
}

#[test]
fn supports_inline_cli_argument_syntax() {
    let argv = vec!["--base-url=https://docs.example.com/".to_string()];
    let config = parse_startup_config(&argv, &HashMap::new()).unwrap();
    assert_eq!(config.base_url.as_deref(), Some("https://docs.example.com"));
}

#[test]
fn falls_back_to_environment() {
    let env = HashMap::from([(
        "DOCMOST_BASE_URL".to_string(),
        "https://env.example.com/".to_string(),
    )]);
    let config = parse_startup_config(&[], &env).unwrap();
    assert_eq!(config.base_url.as_deref(), Some("https://env.example.com"));
}

#[test]
fn throws_when_base_url_flag_is_missing_value() {
    let argv = vec!["--base-url".to_string()];
    let error = parse_startup_config(&argv, &HashMap::new()).unwrap_err();
    assert_eq!(error.message(), "Missing value for --base-url.");
}

#[test]
fn removes_trailing_slashes() {
    assert_eq!(
        normalize_base_url("https://docs.example.com///"),
        "https://docs.example.com"
    );
}

#[test]
fn arguments_override_the_environment_and_blank_values_give_none() {
    let env = HashMap::from([(
        "DOCMOST_BASE_URL".to_string(),
        "https://env.example.com".to_string(),
    )]);
    let argv = vec!["--base-url".to_string(), " https://cli.example.com/ ".to_string()];
    let config = parse_startup_config(&argv, &env).unwrap();
    assert_eq!(config.base_url.as_deref(), Some("https://cli.example.com"));
    let blank = vec!["--base-url=   ".to_string()];
    let config = parse_startup_config(&blank, &HashMap::new()).unwrap();
    assert_eq!(config.base_url, None);
    assert_eq!(ensure_base_url(&config).unwrap_err(), StartupError::MissingBaseUrl);
    assert_eq!(
        StartupError::MissingBaseUrl.message(),
        "A Docmost base URL is required. Pass --base-url or set DOCMOST_BASE_URL."
    );
}

#[test]
fn ensure_base_url_returns_the_configured_url() {
    let config = StartupConfig { base_url: Some("https://a.example".to_string()) };
    assert_eq!(ensure_base_url(&config).unwrap(), "https://a.example");
    assert_eq!(StartupConfig::default().base_url, None);
}
