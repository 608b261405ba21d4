use aardbin::config::{
    duration_input_ok, parse_bool_setting, parse_crypto_key, parse_duration, parse_u64_setting,
    Config, ConfigError, ConfigVars,
};

#[test]
fn duration_parsing() {
    assert_eq!(parse_duration("7d"), Some(7 * 86400));
    assert_eq!(parse_duration("12h"), Some(12 * 3600));
    assert_eq!(parse_duration("30m"), Some(1800));
    assert_eq!(parse_duration("45s"), Some(45));
    assert_eq!(parse_duration("90"), Some(90));
    assert_eq!(parse_duration("bogus"), None);
    assert_eq!(parse_duration(""), None);
}

#[test]
fn crypto_key_validation() {
    assert!(parse_crypto_key(&"a".repeat(64)).is_ok());
    assert!(parse_crypto_key(&"g".repeat(64)).is_err());
    assert!(parse_crypto_key(&"a".repeat(63)).is_err());
    assert!(parse_crypto_key(&"a".repeat(65)).is_err());
}

#[test]
fn crypto_key_decodes_bytes() {
    let hex = "00112233445566778899aabbccddeeffFFEEDDCCBBAA99887766554433221100";
    let key = parse_crypto_key(&format!("  {hex}\n")).unwrap();
    assert_eq!(key[0], 0x00);
    assert_eq!(key[1], 0x11);
    assert_eq!(key[15], 0xff);
    assert_eq!(key[16], 0xff);
    assert_eq!(key[31], 0x00);
}

#[test]
fn crypto_key_error_messages() {
    match parse_crypto_key("abc") {
        Err(ConfigError::Invalid(m)) => assert_eq!(m, "CRYPTO_KEY must be 64 hex characters (32 bytes)"),
        other => panic!("unexpected {other:?}"),
    }
    match parse_crypto_key(&"z".repeat(64)) {
        Err(ConfigError::Invalid(m)) => assert_eq!(m, "CRYPTO_KEY is not valid hex"),
        other => panic!("unexpected {other:?}"),
    }
}

#[test]
fn duration_edge_cases() {
    assert_eq!(parse_duration("  2H "), Some(7200));
    assert_eq!(parse_duration("+5m"), Some(300));
    assert_eq!(parse_duration("d"), None);
    assert_eq!(parse_duration("5x"), None);
    assert_eq!(parse_duration("0s"), Some(0));
    assert!(duration_input_ok("7d"));
    assert!(duration_input_ok(""));
    assert!(!duration_input_ok("5é"));
    assert!(!duration_input_ok("18446744073709551615d"));
    assert!(duration_input_ok("213503982334601d"));
    assert_eq!(parse_duration("213503982334601d"), Some(213503982334601 * 86400));
}

#[test]
fn numeric_and_boolean_settings() {
    assert_eq!(parse_u64_setting("PAGE_SIZE", None, 20).unwrap(), 20);
    assert_eq!(parse_u64_setting("PAGE_SIZE", Some(" 50 "), 20).unwrap(), 50);
    match parse_u64_setting("PAGE_SIZE", Some("-1"), 20) {
        Err(ConfigError::Invalid(m)) => assert_eq!(m, "PAGE_SIZE must be a positive integer"),
        other => panic!("unexpected {other:?}"),
    }
    assert!(parse_bool_setting("COOKIE_SECURE", Some(" YES "), false).unwrap());
    assert!(!parse_bool_setting("COOKIE_SECURE", Some("0"), true).unwrap());
    assert!(parse_bool_setting("COOKIE_SECURE", None, true).unwrap());
    match parse_bool_setting("COOKIE_SECURE", Some("maybe"), true) {
        Err(ConfigError::Invalid(m)) => assert_eq!(m, "COOKIE_SECURE must be true/false"),
        other => panic!("unexpected {other:?}"),
    }
}

fn vars() -> ConfigVars {
    ConfigVars {
        access_key: Some("0123456789abcdef".to_string()),
        crypto_key: Some("ab".repeat(32)),
        max_attachment_bytes: None,
        max_request_bytes: None,
        max_content_bytes: None,
        page_size: None,
        session_ttl: None,
        cookie_secure: None,
        listen_addr: None,
        data_dir: None,
        templates_dir: None,
        static_dir: None,
    }
}

#[test]
fn config_defaults() {
    let c = Config::from_vars(&vars()).unwrap();
    assert_eq!(c.access_key, "0123456789abcdef");
    assert_eq!(c.crypto_key, [0xab; 32]);
    assert_eq!(c.max_attachment_bytes, 2 * 1024 * 1024);
    assert_eq!(c.max_request_bytes, 8 * 1024 * 1024);
    assert_eq!(c.max_content_bytes, 1024 * 1024);
    assert_eq!(c.page_size, 20);
    assert_eq!(c.session_ttl_secs, 7 * 24 * 3600);
    assert!(c.cookie_secure);
    assert_eq!(c.listen_addr, "0.0.0.0:8080");
    assert_eq!(c.data_dir, "./data");
    assert_eq!(c.templates_dir, "./templates");
    assert_eq!(c.static_dir, "./static");
}

#[test]
fn config_errors_in_order() {
    let mut v = vars();
    v.access_key = None;
    v.crypto_key = None;
    let e = Config::from_vars(&v).unwrap_err();
    assert!(matches!(e, ConfigError::Missing("ACCESS_KEY")));
    assert_eq!(e.message(), "missing required environment variable: ACCESS_KEY");

    let mut v = vars();
    v.access_key = Some("short".into());
    let e = Config::from_vars(&v).unwrap_err();
    assert_eq!(e.message(), "invalid configuration: ACCESS_KEY must be at least 16 characters");

    let mut v = vars();
    v.crypto_key = None;
    assert!(matches!(Config::from_vars(&v).unwrap_err(), ConfigError::Missing("CRYPTO_KEY")));

    let mut v = vars();
    v.session_ttl = Some("soon".into());
    v.cookie_secure = Some("perhaps".into());
    let e = Config::from_vars(&v).unwrap_err();
    assert_eq!(e.message(), "invalid configuration: SESSION_TTL must be like 7d/12h/30m/seconds");

    let mut v = vars();
    v.max_request_bytes = Some("lots".into());
    let e = Config::from_vars(&v).unwrap_err();
    assert_eq!(e.message(), "invalid configuration: MAX_REQUEST_BYTES must be a positive integer");
}

#[test]
fn config_overrides() {
    let mut v = vars();
    v.session_ttl = Some("12h".into());
    v.cookie_secure = Some("false".into());
    v.page_size = Some("5".into());
    v.data_dir = Some("/srv/bin".into());
    let c = Config::from_vars(&v).unwrap();
    assert_eq!(c.session_ttl_secs, 12 * 3600);
    assert!(!c.cookie_secure);
    assert_eq!(c.page_size, 5);
    assert_eq!(c.data_dir, "/srv/bin");
}

#[test]
fn access_key_length_counts_characters() {
    let mut v = vars();
    // 6 characters, 18 bytes
    v.access_key = Some("密钥密钥密钥".into());
    let e = Config::from_vars(&v).unwrap_err();
    assert_eq!(e.message(), "invalid configuration: ACCESS_KEY must be at least 16 characters");
    v.access_key = Some("密".repeat(16));
    assert!(Config::from_vars(&v).is_ok());
}
