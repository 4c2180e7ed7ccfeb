use fxpipe::config::{lookup, parse_port, AppConfig, ConfigError, Setting};

fn pairs(items: &[(&str, &str)]) -> Vec<(String, String)> {
    items.iter().map(|(k, v)| (k.to_string(), v.to_string())).collect()
}

fn complete() -> Vec<(String, String)> {
    pairs(&[
        ("exposed_model_name", "test-model"),
        ("host", "0.0.0.0"),
        ("port", "3000"),
        ("llm_config.endpoint", "http://example.com"),
        ("llm_config.passthrough_model_name", "backend-model"),
    ])
}

fn without(key: &str) -> Vec<(String, String)> {
    complete().into_iter().filter(|(k, _)| k != key).collect()
}

#[test]
fn configuration_is_made_of_complete_settings() {
    let config = AppConfig::from_env(&complete()).unwrap();
    assert_eq!(config.exposed_model_name, "test-model");
    assert_eq!(config.host, "0.0.0.0");
    assert_eq!(config.port, 3000);
    assert_eq!(config.llm_config.endpoint, "http://example.com");
    assert_eq!(config.llm_config.api_key, None);
    assert_eq!(config.llm_config.passthrough_model_name, "backend-model");
}

#[test]
fn configuration_takes_the_api_key_where_there_is_one() {
    let mut settings = complete();
    settings.push(("llm_config.api_key".to_string(), "k-1".to_string()));
    let config = AppConfig::from_env(&settings).unwrap();
    assert_eq!(config.llm_config.api_key, Some("k-1".to_string()));
}

#[test]
fn later_settings_override_earlier_ones() {
    let mut settings = complete();
    settings.push(("port".to_string(), "8080".to_string()));
    settings.push(("host".to_string(), "127.0.0.1".to_string()));
    let config = AppConfig::from_env(&settings).unwrap();
    assert_eq!(config.port, 8080);
    assert_eq!(config.host, "127.0.0.1");
    assert_eq!(lookup(&settings, "port"), Some("8080".to_string()));
    assert_eq!(lookup(&settings, "exposed_model_name"), Some("test-model".to_string()));
    assert_eq!(lookup(&settings, "nothing"), None);
    assert_eq!(lookup(&Vec::new(), "port"), None);
}

#[test]
fn missing_settings_are_reported() {
    assert_eq!(
        AppConfig::from_env(&without("exposed_model_name")).err(),
        Some(ConfigError::Missing(Setting::ExposedModelName))
    );
    assert_eq!(
        AppConfig::from_env(&without("host")).err(),
        Some(ConfigError::Missing(Setting::Host))
    );
    assert_eq!(
        AppConfig::from_env(&without("port")).err(),
        Some(ConfigError::Missing(Setting::Port))
    );
    assert_eq!(
        AppConfig::from_env(&without("llm_config.endpoint")).err(),
        Some(ConfigError::Missing(Setting::Endpoint))
    );
    assert_eq!(
        AppConfig::from_env(&without("llm_config.passthrough_model_name")).err(),
        Some(ConfigError::Missing(Setting::PassthroughModelName))
    );
    assert_eq!(
        AppConfig::from_env(&Vec::new()).err(),
        Some(ConfigError::Missing(Setting::ExposedModelName))
    );
}

#[test]
fn a_port_that_is_no_number_is_reported() {
    let mut settings = complete();
    settings.push(("port".to_string(), "http".to_string()));
    assert_eq!(AppConfig::from_env(&settings).err(), Some(ConfigError::InvalidPort));
    let mut settings = without("llm_config.endpoint");
    settings.push(("port".to_string(), "70000".to_string()));
    assert_eq!(AppConfig::from_env(&settings).err(), Some(ConfigError::InvalidPort));
}

#[test]
fn ports_are_decimal_numbers_up_to_65535() {
    assert_eq!(parse_port("0"), Some(0));
    assert_eq!(parse_port("80"), Some(80));
    assert_eq!(parse_port("0080"), Some(80));
    assert_eq!(parse_port("65535"), Some(65535));
    assert_eq!(parse_port("65536"), None);
    assert_eq!(parse_port("99999999999999999999"), None);
    assert_eq!(parse_port(""), None);
    assert_eq!(parse_port("80a"), None);
    assert_eq!(parse_port("+80"), None);
    assert_eq!(parse_port(" 80"), None);
    assert_eq!(parse_port("\u{661}\u{662}"), None);
}

#[test]
fn settings_have_their_keys() {
    assert_eq!(Setting::ExposedModelName.key(), "exposed_model_name");
    assert_eq!(Setting::Host.key(), "host");
    assert_eq!(Setting::Port.key(), "port");
    assert_eq!(Setting::Endpoint.key(), "llm_config.endpoint");
    assert_eq!(Setting::ApiKey.key(), "llm_config.api_key");
    assert_eq!(Setting::PassthroughModelName.key(), "llm_config.passthrough_model_name");
}
