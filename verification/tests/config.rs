//! Reading the settings of the server and of the shim.

use outlay::config as proxy_config;
use outlay::env::{load_env_file, load_env_files, opt_bool, opt_string, parse_env_assignment, Env};
use outlay::modes::{EncryptionMode, GiftWrapMode};
use outlay::server::config as server_config;
use outlay::shim::config as shim_config;
use outlay::urls::{https_url, url_list};

fn env(pairs: &[(&str, &str)]) -> Env {
    let mut env = Env::new();
    for (name, value) in pairs {
        env.set(name.to_string(), value.to_string());
    }
    env
}

#[test]
fn env_assignment_parser() {
    assert_eq!(
        parse_env_assignment("FOO=bar"),
        Some(("FOO".into(), "bar".into()))
    );
    assert_eq!(
        parse_env_assignment("export BAZ = \"hi\""),
        Some(("BAZ".into(), "hi".into()))
    );
    assert_eq!(parse_env_assignment("# comment"), None);
    assert_eq!(parse_env_assignment(""), None);
    assert_eq!(parse_env_assignment("1BAD=x"), None);
}

#[test]
fn https_url_swaps_ws_schemes() {
    assert_eq!(https_url("wss://nostr.wtf"), "https://nostr.wtf");
    assert_eq!(https_url("ws://127.0.0.1:8086"), "http://127.0.0.1:8086");
    assert_eq!(https_url("https://nostr.wtf"), "https://nostr.wtf");
    assert_eq!(https_url("nostr.wtf"), "https://nostr.wtf");
}

#[test]
fn main_https_url_swaps_ws_schemes() {
    assert_eq!(https_url("wss://nostr.wtf"), "https://nostr.wtf");
    assert_eq!(https_url("ws://x:8080"), "http://x:8080");
    assert_eq!(https_url("https://nostr.wtf"), "https://nostr.wtf");
    assert_eq!(https_url("nostr.wtf"), "https://nostr.wtf");
}

#[test]
fn defaults() {
    let c = proxy_config::read_server_config(&env(&[(
        "OUTLAY_PROXY_RELAY_URL",
        "ws://localhost:8080",
    )]))
    .unwrap();
    assert_eq!(c.proxy_relay_url, "ws://localhost:8080");
    assert_eq!(c.cvm_relay_urls, vec!["wss://relay.contextvm.org"]);
    assert_eq!(c.server_name, "outlay");
    assert!(!c.is_announced);
    assert!(c.private_key_hex.is_none());
}

#[test]
fn config_defaults() {
    let c = server_config::read_server_config(&env(&[(
        "OUTLAY_PROXY_RELAY_URL",
        "ws://localhost:8080",
    )]))
    .unwrap();
    assert_eq!(c.proxy_relay_url.as_deref(), Some("ws://localhost:8080"));
    assert_eq!(c.cvm_relay_urls, vec!["wss://nostr.wtf"]);
    assert_eq!(c.server_name, "outlay");
    assert!(!c.is_announced);
    assert!(c.private_key_hex.is_none());
    assert_eq!(c.gift_wrap_mode, GiftWrapMode::Ephemeral);
}

#[test]
fn shim_config_defaults() {
    let c = shim_config::read_shim_config(&Env::new()).unwrap();
    assert_eq!(c.listen_addr, "127.0.0.1:8088");
    assert_eq!(c.relay_urls, vec!["wss://relay.contextvm.org"]);
    assert_eq!(c.encryption_mode, EncryptionMode::Optional);
    assert_eq!(c.connect_timeout_secs, 15);
    assert_eq!(c.max_ws_message_bytes, 1_048_576);
    assert!(c.private_key.is_none());
    assert!(c.enable_relay);
    assert_eq!(c.public_urls, vec!["wss://relay.contextvm.org"]);
    assert_eq!(c.public_url(), Some("wss://relay.contextvm.org"));
    assert_eq!(c.gift_wrap_mode, GiftWrapMode::Ephemeral);
    assert_eq!(c.max_cached_outlays, 64);
}

#[test]
fn overrides() {
    let c = proxy_config::read_server_config(&env(&[
        ("OUTLAY_PROXY_RELAY_URL", "wss://relay.nostr.net"),
        ("OUTLAY_RELAY_URLS", "wss://a.test, wss://b.test"),
        ("OUTLAY_SERVER_NAME", "my-outlay"),
        ("OUTLAY_ANNOUNCED", "1"),
    ]))
    .unwrap();
    assert_eq!(c.proxy_relay_url, "wss://relay.nostr.net");
    assert_eq!(c.cvm_relay_urls, vec!["wss://a.test", "wss://b.test"]);
    assert_eq!(c.server_name, "my-outlay");
    assert!(c.is_announced);
}

#[test]
fn config_overrides() {
    let c = server_config::read_server_config(&env(&[
        ("OUTLAY_PROXY_RELAY_URL", "wss://relay.nostr.net"),
        ("OUTLAY_RELAY_URLS", "wss://a.test, wss://b.test"),
        ("OUTLAY_SERVER_NAME", "my-outlay"),
        ("OUTLAY_ANNOUNCED", "1"),
        ("OUTLAY_GIFT_WRAP_MODE", "persistent"),
    ]))
    .unwrap();
    assert_eq!(c.proxy_relay_url.as_deref(), Some("wss://relay.nostr.net"));
    assert_eq!(c.cvm_relay_urls, vec!["wss://a.test", "wss://b.test"]);
    assert_eq!(c.server_name, "my-outlay");
    assert!(c.is_announced);
    assert_eq!(c.gift_wrap_mode, GiftWrapMode::Persistent);
}

#[test]
fn shim_config_overrides() {
    let c = shim_config::read_shim_config(&env(&[
        ("OUTLAY_SHIM_LISTEN_ADDR", "127.0.0.1:9100"),
        ("OUTLAY_SHIM_RELAY_URLS", "wss://a.test, wss://b.test"),
        ("OUTLAY_SHIM_ENCRYPTION_MODE", "disabled"),
        ("OUTLAY_SHIM_CONNECT_TIMEOUT", "30"),
        ("OUTLAY_SHIM_PRIVATE_KEY", "nsec1..."),
    ]))
    .unwrap();
    assert_eq!(c.listen_addr, "127.0.0.1:9100");
    assert_eq!(c.relay_urls, vec!["wss://a.test", "wss://b.test"]);
    assert_eq!(c.encryption_mode, EncryptionMode::Disabled);
    assert_eq!(c.connect_timeout_secs, 30);
    assert_eq!(c.private_key.as_deref(), Some("nsec1..."));
}

#[test]
fn missing_upstream_is_required() {
    assert!(matches!(
        proxy_config::read_server_config(&Env::new()),
        Err(proxy_config::ConfigError::MissingProxyRelayUrl)
    ));
}

#[test]
fn missing_upstream_is_required_without_bundled() {
    assert!(matches!(
        server_config::read_server_config_for(&Env::new(), false),
        Err(server_config::ConfigError::MissingProxyRelayUrl)
    ));
}

#[test]
fn no_upstream_defaults_to_bundled() {
    let c = server_config::read_server_config(&env(&[("OUTLAY_BUNDLED_BACKEND", "memory")]))
        .unwrap();
    assert_eq!(c.proxy_relay_url, None, "no proxy URL → bundled mode");
    assert_eq!(c.bundled.backend, "memory");
    assert_eq!(c.bundled.port, 0);
}

#[test]
fn bundled_defaults_to_sqlite() {
    let c = server_config::read_server_config(&Env::new()).unwrap();
    assert_eq!(c.bundled.backend, "sqlite");
    assert_eq!(c.bundled.db_path, "outlay-relay.db");
}

#[test]
fn proxy_url_selects_proxy_mode() {
    let c = server_config::read_server_config(&env(&[(
        "OUTLAY_PROXY_RELAY_URL",
        "wss://relay.primal.net",
    )]))
    .unwrap();
    assert_eq!(c.proxy_relay_url.as_deref(), Some("wss://relay.primal.net"));
}

#[test]
fn invalid_gift_wrap_mode_rejected() {
    assert!(matches!(
        server_config::read_server_config(&env(&[
            ("OUTLAY_PROXY_RELAY_URL", "ws://localhost:8080"),
            ("OUTLAY_GIFT_WRAP_MODE", "sealed"),
        ])),
        Err(server_config::ConfigError::InvalidGiftWrapMode(_))
    ));
}

#[test]
fn invalid_encryption_rejected() {
    assert!(matches!(
        shim_config::read_shim_config(&env(&[("OUTLAY_SHIM_ENCRYPTION_MODE", "encrypted")])),
        Err(shim_config::ConfigError::InvalidEncryption(_))
    ));
}

#[test]
fn invalid_booleans_are_named() {
    let e = server_config::read_server_config(&env(&[("OUTLAY_ANNOUNCED", "yes")])).unwrap_err();
    assert_eq!(
        e,
        server_config::ConfigError::InvalidBoolean("OUTLAY_ANNOUNCED".into())
    );
    assert_eq!(
        e.message(),
        "Invalid boolean environment variable: OUTLAY_ANNOUNCED"
    );
    let e = proxy_config::read_server_config(&env(&[
        ("OUTLAY_PROXY_RELAY_URL", "ws://x"),
        ("OUTLAY_ANNOUNCED", "maybe"),
    ]))
    .unwrap_err();
    assert_eq!(
        e.message(),
        "Invalid boolean environment variable: OUTLAY_ANNOUNCED"
    );
    assert_eq!(opt_bool(&env(&[("B", "0")]), "B"), Ok(Some(false)));
    assert_eq!(opt_bool(&env(&[("B", " true ")]), "B"), Ok(Some(true)));
    assert_eq!(opt_bool(&Env::new(), "B"), Ok(None));
}

#[test]
fn config_error_messages() {
    assert_eq!(
        proxy_config::ConfigError::MissingProxyRelayUrl.message(),
        "OUTLAY_PROXY_RELAY_URL is required (the upstream relay to proxy)"
    );
    assert_eq!(
        server_config::ConfigError::MissingProxyRelayUrl.message(),
        "OUTLAY_PROXY_RELAY_URL is required (no bundled relay compiled in; rebuild with the `bundled-relay` feature, or set an upstream URL)"
    );
    assert_eq!(
        server_config::ConfigError::InvalidGiftWrapMode("sealed".into()).message(),
        "invalid OUTLAY_GIFT_WRAP_MODE: sealed (expected persistent|ephemeral|optional)"
    );
    assert_eq!(
        shim_config::ConfigError::InvalidEncryption("x".into()).message(),
        "invalid OUTLAY_SHIM_ENCRYPTION_MODE: x (expected optional|disabled|required)"
    );
}

#[test]
fn numbers_fall_back_to_their_defaults() {
    let port = |raw: &str| {
        server_config::read_server_config(&env(&[("OUTLAY_BUNDLED_PORT", raw)]))
            .unwrap()
            .bundled
            .port
    };
    assert_eq!(port("8099"), 8099);
    assert_eq!(port("+7"), 7);
    assert_eq!(port("65535"), 65535);
    assert_eq!(port("65536"), 0);
    assert_eq!(port("-1"), 0);
    assert_eq!(port("port"), 0);
    let bytes = |raw: &str| {
        shim_config::read_shim_config(&env(&[("OUTLAY_SHIM_MAX_WS_MESSAGE_BYTES", raw)]))
            .unwrap()
            .max_ws_message_bytes
    };
    assert_eq!(bytes("2048"), 2048);
    assert_eq!(bytes("lots"), 1_048_576);
}

#[test]
fn only_false_switches_the_relay_off() {
    let on = |raw: &str| {
        shim_config::read_shim_config(&env(&[("OUTLAY_SHIM_RELAY", raw)]))
            .unwrap()
            .enable_relay
    };
    assert!(!on("false"));
    assert!(!on(" false "));
    assert!(on("true"));
    assert!(on("0"));
    assert!(on(""));
}

#[test]
fn public_urls_default_to_the_relays() {
    let c = shim_config::read_shim_config(&env(&[("OUTLAY_SHIM_RELAY_URLS", "wss://a.test")]))
        .unwrap();
    assert_eq!(c.public_urls, vec!["wss://a.test"]);
    let c = shim_config::read_shim_config(&env(&[
        ("OUTLAY_SHIM_RELAY_URLS", "wss://a.test"),
        ("OUTLAY_SHIM_PUBLIC_URLS", "wss://me.test,wss://me2.test"),
    ]))
    .unwrap();
    assert_eq!(c.public_urls, vec!["wss://me.test", "wss://me2.test"]);
    assert_eq!(c.relay_urls, vec!["wss://a.test"]);
}

#[test]
fn url_lists_are_trimmed() {
    assert_eq!(url_list(" a ,, b,"), vec!["a", "b"]);
    assert!(url_list(" , ,").is_empty());
    let c = server_config::read_server_config(&env(&[("OUTLAY_RELAY_URLS", " , ")])).unwrap();
    assert_eq!(c.cvm_relay_urls, vec!["wss://nostr.wtf"]);
}

#[test]
fn the_first_write_of_a_variable_wins() {
    let mut e = env(&[("A", "process")]);
    load_env_files(
        &mut e,
        Some("A=file\nB=one\nB=two\r\n# C=no\nexport D='q d'\n"),
        Some("B=local\nE=local"),
    );
    assert_eq!(e.get("A"), Some("process"));
    assert_eq!(e.get("B"), Some("one"));
    assert_eq!(e.get("C"), None);
    assert_eq!(e.get("D"), Some("q d"));
    assert_eq!(e.get("E"), Some("local"));
    load_env_file(&mut e, None);
    assert_eq!(e.get("E"), Some("local"));
}

#[test]
fn a_loaded_file_makes_the_settings() {
    let mut e = Env::new();
    let c = proxy_config::load(
        &mut e,
        Some("OUTLAY_PROXY_RELAY_URL=ws://up\nOUTLAY_SERVER_ABOUT=\"about\""),
        None,
    )
    .unwrap();
    assert_eq!(c.proxy_relay_url, "ws://up");
    assert_eq!(c.server_about.as_deref(), Some("about"));
}

#[test]
fn env_assignment_edge_cases() {
    assert_eq!(parse_env_assignment("=x"), None);
    assert_eq!(parse_env_assignment("A B=x"), None);
    assert_eq!(
        parse_env_assignment("_A1 = x=y "),
        Some(("_A1".into(), "x=y".into()))
    );
    assert_eq!(parse_env_assignment("A="), Some(("A".into(), "".into())));
    assert_eq!(parse_env_assignment("A=\""), Some(("A".into(), "\"".into())));
    assert_eq!(
        parse_env_assignment("A='x\""),
        Some(("A".into(), "'x\"".into()))
    );
    assert_eq!(opt_string(&env(&[("A", "  ")]), "A"), None);
    assert_eq!(
        opt_string(&env(&[("A", " x ")]), "A"),
        Some("x".to_string())
    );
}
