//! Identifiers, subdomain canonicalization, URL building, list
//! parsing and the release check.
use sha2::Digest;
use tunnelto::config::{control_url_text, Config};
use tunnelto::hello::ServerHello;
use tunnelto::ids::{ClientId, SecretKey};
use tunnelto::server_config::{gossip_dns_host_for, parse_port, split_csv};
use tunnelto::control_server::choose_client_ip;
use tunnelto::subdomain::canonicalize_sub_domain;
use tunnelto::update::{is_newer, parse_version, Update, Version};

#[test]
fn client_id_is_the_digest_of_the_key() {
    let key = SecretKey("k1".to_string());
    let expected = base64::encode(sha2::Sha256::digest(b"k1").to_vec());
    assert_eq!(key.client_id().to_string(), expected);
    // A different key maps elsewhere.
    assert_ne!(SecretKey("k2".to_string()).client_id().to_string(), expected);
}

#[test]
fn generated_material_has_its_shape() {
    let key = SecretKey::generate();
    assert_eq!(key.0.len(), 22);
    assert!(key.0.chars().all(|c| c.is_ascii_alphanumeric()));
    let id = ClientId::generate();
    assert!(!id.to_string().is_empty());
    let domain = ServerHello::random_domain();
    assert_eq!(domain.len(), 8);
    assert!(domain.chars().all(|c| c.is_ascii_lowercase() || c.is_ascii_digit()));
    let prefixed = ServerHello::prefixed_random_domain("wish");
    assert!(prefixed.starts_with("wish-"));
    assert_eq!(prefixed.len(), 13);
}

#[test]
fn safe_id_hides_the_plain_id() {
    let id = ClientId::from_text("visible".to_string());
    let expected = base64::encode(sha2::Sha256::digest(b"visible").to_vec());
    assert_eq!(id.safe_id().to_string(), expected);
}

#[test]
fn canonicalization_case_folds_and_screens() {
    assert_eq!(canonicalize_sub_domain("Foo").as_deref(), Some("foo"));
    assert_eq!(canonicalize_sub_domain("foo").as_deref(), Some("foo"));
    assert_eq!(canonicalize_sub_domain("foo-bar").as_deref(), Some("foo-bar"));
    assert_eq!(canonicalize_sub_domain("F00-Bar9").as_deref(), Some("f00-bar9"));
    assert!(canonicalize_sub_domain("foo_bar").is_none());
    assert!(canonicalize_sub_domain("foo.bar").is_none());
    assert!(canonicalize_sub_domain("f o o").is_none());
}

#[test]
fn urls_assemble_from_plain_parts() {
    assert_eq!(
        control_url_text(false, &"wormhole.tunnelto.dev".to_string(), &"10001".to_string()),
        "wss://wormhole.tunnelto.dev:10001/wormhole"
    );
    assert_eq!(
        control_url_text(true, &"localhost".to_string(), &"5000".to_string()),
        "ws://localhost:5000/wormhole"
    );
    let config = Config {
        client_id: ClientId::from_text("c".to_string()),
        control_url: String::new(),
        use_tls: false,
        host: "tunnelto.dev".to_string(),
        local_host: "localhost".to_string(),
        local_port: 8000,
        sub_domain: None,
        secret_key: None,
        control_tls_off: false,
        first_run: true,
        dashboard_port: 0,
        verbose: false,
    };
    assert_eq!(config.forward_url(), "http://localhost:8000");
    assert_eq!(config.ws_forward_url(), "ws://localhost:8000");
    assert_eq!(config.activation_url("abcd1234.tunnelto.dev"), "https://abcd1234.tunnelto.dev");
}

#[test]
fn lists_and_ports_parse() {
    let pieces = split_csv(&"a.dev,b.dev".to_string());
    assert_eq!(pieces, vec!["a.dev".to_string(), "b.dev".to_string()]);
    assert_eq!(split_csv(&"solo".to_string()), vec!["solo".to_string()]);
    assert_eq!(
        split_csv(&"x,,y".to_string()),
        vec!["x".to_string(), "".to_string(), "y".to_string()]
    );
    assert_eq!(parse_port(&"8080".to_string()), Some(8080));
    assert_eq!(parse_port(&"0".to_string()), Some(0));
    assert_eq!(parse_port(&"65536".to_string()), None);
    assert_eq!(parse_port(&"80a".to_string()), None);
    assert_eq!(parse_port(&"".to_string()), None);
    assert_eq!(
        gossip_dns_host_for(&"myapp".to_string()),
        "global.myapp.internal"
    );
}

#[test]
fn anonymous_key_is_the_zero_credential() {
    let key = SecretKey::anonymous_key();
    assert_eq!(key.0, base64::encode_config(&[0u8; 32], base64::URL_SAFE_NO_PAD));
}

#[test]
fn client_ip_prefers_the_proxy_report() {
    assert_eq!(
        choose_client_ip(Some("1.1.1.1".to_string()), Some("2.2.2.2".to_string()), None),
        "1.1.1.1"
    );
    assert_eq!(
        choose_client_ip(None, Some("2.2.2.2".to_string()), Some("3.3.3.3".to_string())),
        "2.2.2.2"
    );
    assert_eq!(choose_client_ip(None, None, Some("3.3.3.3".to_string())), "3.3.3.3");
    assert_eq!(choose_client_ip(None, None, None), "0.0.0.0");
}

#[test]
fn versions_order_lexicographically() {
    assert_eq!(
        parse_version("1.2.3"),
        Some(Version { major: 1, minor: 2, patch: 3 })
    );
    assert!(parse_version("1.2").is_none());
    assert!(parse_version("1.2.x").is_none());
    let old = Version { major: 0, minor: 1, patch: 14 };
    let new = Version { major: 0, minor: 1, patch: 15 };
    assert!(is_newer(&new, &old));
    assert!(!is_newer(&old, &new));
    assert!(!is_newer(&old, &old));
    let update = Update {
        html_url: "https://example.invalid/release".to_string(),
        name: "0.2.0".to_string(),
    };
    assert_eq!(update.newer_than("0.1.14"), Some(true));
    assert_eq!(update.newer_than("0.2.0"), Some(false));
    assert_eq!(update.newer_than("not-a-version"), None);
}
