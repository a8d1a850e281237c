use jas::config::{config_path, Config, DiscoveryConfig, LoadOutcome, SchedulerConfig, SecurityConfig, ServerConfig, StorageConfig};

fn config_with_key(key: &str) -> Config {
    let mut cfg = Config::default();
    cfg.security.secret_key = key.to_string();
    cfg
}

#[test]
fn defaults_match_documented_values() {
    let cfg = Config::default();
    assert_eq!(cfg.server.bind, "0.0.0.0:3000");
    assert_eq!(cfg.server.log_level, "info");
    assert_eq!(cfg.storage.database_path, "jas.db");
    assert_eq!(cfg.storage.ipa_dir, "ipas");
    assert_eq!(cfg.scheduler.interval_hours, 2);
    assert_eq!(cfg.scheduler.refresh_window_days, 3);
    assert_eq!(cfg.scheduler.worker_threads, 2);
    assert_eq!(cfg.security.secret_key, "");
    assert!(cfg.discovery.mdns_enabled);
    assert_eq!(cfg.discovery.mdns_interface, "");
}

#[test]
fn section_defaults_agree_with_whole_default() {
    assert_eq!(ServerConfig::default().bind, "0.0.0.0:3000");
    assert_eq!(StorageConfig::default().ipa_dir, "ipas");
    assert_eq!(SchedulerConfig::default().worker_threads, 2);
    assert_eq!(SecurityConfig::default().secret_key, "");
    assert!(DiscoveryConfig::default().mdns_enabled);
}

#[test]
fn config_path_prefers_environment() {
    assert_eq!(config_path(None), "jas.toml");
    assert_eq!(config_path(Some("/etc/jas/custom.toml".to_string())), "/etc/jas/custom.toml");
}

#[test]
fn load_outcome_falls_back_to_defaults() {
    for outcome in [LoadOutcome::Missing, LoadOutcome::ReadFailed, LoadOutcome::ParseFailed] {
        let cfg = Config::from_load_outcome(outcome);
        assert_eq!(cfg.server.bind, "0.0.0.0:3000");
        assert_eq!(cfg.scheduler.interval_hours, 2);
    }
    let mut parsed = Config::default();
    parsed.scheduler.interval_hours = 6;
    parsed.server.bind = "127.0.0.1:8080".to_string();
    let cfg = Config::from_load_outcome(LoadOutcome::Parsed(parsed));
    assert_eq!(cfg.scheduler.interval_hours, 6);
    assert_eq!(cfg.server.bind, "127.0.0.1:8080");
}

#[test]
fn empty_key_gives_zeros() {
    assert_eq!(config_with_key("").secret_key_bytes(None), [0u8; 32]);
}

#[test]
fn short_key_is_zero_padded() {
    let key = config_with_key("0011ff").secret_key_bytes(None);
    let mut expected = [0u8; 32];
    expected[1] = 0x11;
    expected[2] = 0xff;
    assert_eq!(key, expected);
}

#[test]
fn full_key_decodes_exactly() {
    let hex: String = (0..32u8).map(|b| format!("{:02x}", b)).collect();
    let key = config_with_key(&hex).secret_key_bytes(None);
    let expected: Vec<u8> = (0..32u8).collect();
    assert_eq!(key.to_vec(), expected);
}

#[test]
fn long_key_is_cut_to_thirty_two_bytes() {
    let hex: String = (0..40u8).map(|b| format!("{:02X}", b)).collect();
    let key = config_with_key(&hex).secret_key_bytes(None);
    let expected: Vec<u8> = (0..32u8).collect();
    assert_eq!(key.to_vec(), expected);
}

#[test]
fn mixed_case_hex_is_accepted() {
    let key = config_with_key("aBcD").secret_key_bytes(None);
    assert_eq!(&key[..2], &[0xab, 0xcd]);
    assert!(key[2..].iter().all(|b| *b == 0));
}

#[test]
fn invalid_hex_gives_zeros() {
    assert_eq!(config_with_key("zz").secret_key_bytes(None), [0u8; 32]);
    assert_eq!(config_with_key("abc").secret_key_bytes(None), [0u8; 32]);
    assert_eq!(config_with_key("é1").secret_key_bytes(None), [0u8; 32]);
}

#[test]
fn environment_key_overrides_configured_key() {
    let cfg = config_with_key("01");
    let key = cfg.secret_key_bytes(Some("02".to_string()));
    assert_eq!(key[0], 0x02);
    let key = cfg.secret_key_bytes(Some(String::new()));
    assert_eq!(key, [0u8; 32]);
    assert_eq!(cfg.secret_key_bytes(None)[0], 0x01);
}
