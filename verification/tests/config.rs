use rsground::config::{cors_origins, is_loopback, split_list, validate_configuration, ConfigError};

const SECRET: &str = "0123456789abcdef0123456789abcdef";

#[test]
fn loopback_addresses_are_recognised() {
    assert!(is_loopback("127.0.0.1:8080"));
    assert!(is_loopback("localhost:3000"));
    assert!(is_loopback("[::1]:8080"));
    assert!(!is_loopback("0.0.0.0:8080"));
    assert!(!is_loopback("example.com:443"));
    assert!(is_loopback("localhost"));
}

#[test]
fn local_development_needs_nothing() {
    assert_eq!(validate_configuration("127.0.0.1:8080", None, None, None), Ok(()));
}

#[test]
fn public_binds_need_the_production_settings() {
    assert_eq!(
        validate_configuration("0.0.0.0:8080", None, Some(SECRET), Some("https://a.example")),
        Err(ConfigError::NotProduction)
    );
    assert_eq!(
        validate_configuration("0.0.0.0:8080", Some("production"), None, Some("https://a.example")),
        Err(ConfigError::MissingSecret)
    );
    assert_eq!(
        validate_configuration("0.0.0.0:8080", Some("prod"), Some("short"), Some("https://a.example")),
        Err(ConfigError::ShortSecret)
    );
    assert_eq!(
        validate_configuration("0.0.0.0:8080", Some("PRODUCTION"), Some(SECRET), Some(" , ")),
        Err(ConfigError::MissingCorsOrigins)
    );
    assert_eq!(
        validate_configuration("0.0.0.0:8080", Some("production"), Some(SECRET), Some("https://a.example")),
        Ok(())
    );
    // Production on loopback is held to the same rules.
    assert_eq!(
        validate_configuration("127.0.0.1:8080", Some("production"), None, None),
        Err(ConfigError::MissingSecret)
    );
    assert_eq!(
        ConfigError::ShortSecret.message(),
        "JWT_SECRET must contain at least 32 bytes for deployment"
    );
}

#[test]
fn origins_come_from_the_list_or_default_to_the_local_frontend() {
    assert_eq!(
        cors_origins(Some(" https://a.example , ,https://b.example ")),
        vec!["https://a.example".to_string(), "https://b.example".to_string()]
    );
    assert_eq!(
        cors_origins(None),
        vec!["http://localhost:3000".to_string(), "http://127.0.0.1:3000".to_string()]
    );
    assert_eq!(cors_origins(Some("")), cors_origins(None));
    assert_eq!(split_list("a,,b"), vec!["a".to_string(), "b".to_string()]);
}
