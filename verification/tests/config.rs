use zonemail::config::{
    addr_with, default_cache_ttl_secs, default_fail_closed, default_janux_bearer,
    default_refresh_interval_secs, AuthConfig, Config, KeyConfig, KeysKind, MailboxEntry,
    RoleConfig,
};
use zonemail::services::{BootMode, Service};

#[test]
fn mailbox_entry_simple_has_no_forward() {
    let entry = MailboxEntry::Simple("user@example.com".to_string());
    assert_eq!(entry.address(), "user@example.com");
    assert_eq!(entry.forward_to(), None);
}

#[test]
fn mailbox_entry_detailed_carries_forward() {
    let entry = MailboxEntry::Detailed {
        id: "user@example.com".to_string(),
        forward_to: Some("user@gmail.com".to_string()),
    };
    assert_eq!(entry.address(), "user@example.com");
    assert_eq!(entry.forward_to(), Some("user@gmail.com"));
}

#[test]
fn config_default_ports_and_host() {
    let cfg = Config::default();
    assert_eq!(cfg.host, "0.0.0.0");
    assert_eq!(cfg.dns, 53);
    assert_eq!(cfg.smtp, 25);
    assert_eq!(cfg.api, 8081);
    assert_eq!(cfg.database_url, "turso:zonemail.db");
    assert!(cfg.domains.is_empty());
    assert!(cfg.records.is_empty());
    assert!(cfg.mailboxes.is_empty());
}

#[test]
fn resolved_mode_defaults_to_full() {
    let cfg = Config::default();
    assert_eq!(cfg.resolved_mode(), BootMode::Full);
    assert!(cfg.resolved_mode().services().contains(&Service::Smtp));
    assert!(cfg.resolved_mode().services().contains(&Service::Dns));
}

#[test]
fn resolved_mode_honors_explicit_choice() {
    let mut cfg = Config::default();
    cfg.mode = BootMode::parse("dns");
    assert_eq!(cfg.resolved_mode(), BootMode::Dns);
    assert!(cfg.resolved_mode().services().contains(&Service::Dns));
    assert!(!cfg.resolved_mode().services().contains(&Service::Smtp));

    cfg.mode = BootMode::parse("off");
    assert_eq!(cfg.resolved_mode(), BootMode::Off);
    assert!(cfg.resolved_mode().services().is_empty());
}

#[test]
fn config_addr_helpers_join_host_and_port() {
    let mut cfg = Config::default();
    cfg.host = "127.0.0.1".to_string();
    cfg.dns = 5353;
    cfg.smtp = 1025;
    cfg.api = 8080;
    assert_eq!(cfg.dns_addr().unwrap(), "127.0.0.1:5353");
    assert_eq!(cfg.smtp_addr().unwrap(), "127.0.0.1:1025");
    assert_eq!(cfg.api_addr().unwrap(), "127.0.0.1:8080");
}

#[test]
fn config_addr_helpers_reject_bad_host() {
    let mut cfg = Config::default();
    cfg.host = "not a valid host".to_string();
    assert!(cfg.api_addr().is_err());
    assert!(cfg.smtp_addr().is_err());
    assert!(cfg.dns_addr().is_err());
    cfg.host = "[::1]".to_string();
    assert_eq!(cfg.api_addr().unwrap(), "[::1]:8081");
}

#[test]
fn addresses_follow_the_check() {
    assert_eq!(addr_with("h", 7, Ok(())), Ok("h:7".to_string()));
    assert_eq!(addr_with("h", 7, Err("bad".to_string())), Err("bad".to_string()));
}

#[test]
fn auth_is_disabled_by_default() {
    let cfg = AuthConfig::default();
    assert!(!cfg.enabled);
    assert!(cfg.roles.is_empty());
    assert_eq!(cfg.clock_skew_secs, 30);
    assert_eq!(cfg.public, vec!["health".to_string(), "doc".to_string()]);
    assert_eq!(AuthConfig::default_public(), cfg.public);
    let role = RoleConfig::default();
    assert!(role.grants.is_empty() && role.extends.is_empty());
}

#[test]
fn key_source_names_are_read() {
    assert_eq!(KeysKind::parse("secret"), Ok(KeysKind::Secret));
    assert_eq!(KeysKind::parse(" JWKS "), Ok(KeysKind::Jwks));
    assert_eq!(KeysKind::parse("jwks_remote"), Ok(KeysKind::JwksRemote));
    assert_eq!(KeysKind::parse("oidc"), Ok(KeysKind::Issuer));
    assert_eq!("issuer".parse::<KeysKind>(), Ok(KeysKind::Issuer));
    assert_eq!(
        KeysKind::parse("Nope"),
        Err("unknown auth keys.kind 'nope'; expected one of secret|jwks|jwks_remote|issuer"
            .to_string())
    );
}

#[test]
fn key_source_defaults() {
    let mut keys = KeyConfig::default();
    assert_eq!(keys.kind, KeysKind::Secret);
    assert_eq!(keys.default_algorithms(), vec!["HS256".to_string()]);
    assert!(keys.janux_bearer && default_janux_bearer());
    assert!(keys.fail_closed && default_fail_closed());
    assert_eq!(keys.cache_ttl_secs, default_cache_ttl_secs());
    assert_eq!(keys.refresh_interval_secs, default_refresh_interval_secs());
    keys.kind = KeysKind::Issuer;
    assert!(!keys.default_algorithms().is_empty());
}
