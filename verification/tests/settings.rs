use cache_broker::config::{Config, ConfigError, RawConfig};

fn raw(port: &str, tokens: &str, channel: &str) -> RawConfig {
    RawConfig {
        api_key: "key".to_string(),
        postgres_user: "user".to_string(),
        postgres_password: "password".to_string(),
        postgres_host: "host".to_string(),
        postgres_port: port.to_string(),
        postgres_db: "db".to_string(),
        downloader_api_key: "dkey".to_string(),
        downloader_url: "durl".to_string(),
        library_api_key: "lkey".to_string(),
        library_url: "lurl".to_string(),
        files_api_key: "fkey".to_string(),
        files_url: "furl".to_string(),
        bot_tokens: tokens.to_string(),
        temp_channel_id: channel.to_string(),
        sentry_dsn: "dsn".to_string(),
    }
}

#[test]
fn settings_are_read() {
    let config = Config::parse(raw("5432", r#"["1:a", "2:b"]"#, "-1001234567890")).unwrap();
    assert_eq!(config.postgres_port, 5432);
    assert_eq!(config.bot_tokens, ["1:a", "2:b"]);
    assert_eq!(config.temp_channel_id, -1001234567890);
    assert_eq!(config.api_key, "key");
    assert_eq!(config.postgres_user, "user");
    assert_eq!(config.postgres_password, "password");
    assert_eq!(config.postgres_host, "host");
    assert_eq!(config.postgres_db, "db");
    assert_eq!(config.downloader_api_key, "dkey");
    assert_eq!(config.downloader_url, "durl");
    assert_eq!(config.library_api_key, "lkey");
    assert_eq!(config.library_url, "lurl");
    assert_eq!(config.files_api_key, "fkey");
    assert_eq!(config.files_url, "furl");
    assert_eq!(config.sentry_dsn, "dsn");
}

#[test]
fn port_may_carry_a_plus_but_no_minus() {
    assert_eq!(Config::parse(raw("+80", "[]", "1")).unwrap().postgres_port, 80);
    assert_eq!(Config::parse(raw("0080", "[]", "1")).unwrap().postgres_port, 80);
    for bad in ["-80", "", "+", "80 ", " 80", "8_0", "4294967296", "abc"] {
        assert_eq!(Config::parse(raw(bad, "[]", "1")).unwrap_err(), ConfigError::PostgresPort);
    }
    assert_eq!(Config::parse(raw("4294967295", "[]", "1")).unwrap().postgres_port, u32::MAX);
}

#[test]
fn tokens_must_be_a_json_list_of_strings() {
    assert!(Config::parse(raw("1", "[]", "1")).unwrap().bot_tokens.is_empty());
    for bad in ["", "a,b", r#"{"a": 1}"#, "[1, 2]", r#"["a""#] {
        assert_eq!(Config::parse(raw("1", bad, "1")).unwrap_err(), ConfigError::BotTokens);
    }
}

#[test]
fn channel_may_be_negative() {
    assert_eq!(Config::parse(raw("1", "[]", "-5")).unwrap().temp_channel_id, -5);
    assert_eq!(Config::parse(raw("1", "[]", "+5")).unwrap().temp_channel_id, 5);
    assert_eq!(
        Config::parse(raw("1", "[]", "-9223372036854775808")).unwrap().temp_channel_id,
        i64::MIN
    );
    for bad in ["", "-", "9223372036854775808", "1.5", "x"] {
        assert_eq!(Config::parse(raw("1", "[]", bad)).unwrap_err(), ConfigError::TempChannelId);
    }
}

#[test]
fn first_bad_setting_is_reported() {
    assert_eq!(Config::parse(raw("x", "x", "x")).unwrap_err(), ConfigError::PostgresPort);
    assert_eq!(Config::parse(raw("1", "x", "x")).unwrap_err(), ConfigError::BotTokens);
}

#[test]
fn only_the_key_itself_authorizes() {
    let config = Config::parse(raw("1", "[]", "1")).unwrap();
    assert!(config.authorizes(Some("key")));
    assert!(!config.authorizes(Some("Key")));
    assert!(!config.authorizes(Some("key ")));
    assert!(!config.authorizes(Some("")));
    assert!(!config.authorizes(None));
}
