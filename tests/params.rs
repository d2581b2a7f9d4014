use cluster_prep::address::{SocketAddress, DEFAULT_HTTP_PORT};
use cluster_prep::keys::{parse_key_id, parse_key_ids, parse_legacy_key_id, KeyAlgorithm, KeyScheme};
use cluster_prep::params::{
    parse_log_level, parse_subnet_kind, resolve_listen_addr, validate, ConfigError, DirFacts,
    LogLevel, RawParams, SubnetKind,
};

fn fine_dirs() -> DirFacts {
    DirFacts { port_file_parent_exists: true, state_dir_read_only: false }
}

fn file() -> Option<String> {
    Some("/tmp/port".to_string())
}

#[test]
fn resolution_without_choices_uses_default_loopback_port() {
    let r = resolve_listen_addr(None, None, &None);
    assert_eq!(r, Ok(SocketAddress::loopback(DEFAULT_HTTP_PORT)));
    assert_eq!(r.unwrap().to_text(), "127.0.0.1:8080");
}

#[test]
fn resolution_with_port_file_only_uses_ephemeral_port() {
    assert_eq!(resolve_listen_addr(None, None, &file()), Ok(SocketAddress::loopback(0)));
}

#[test]
fn resolution_with_address_keeps_it() {
    let a = SocketAddress::new(10, 0, 0, 7, 9000);
    assert_eq!(resolve_listen_addr(None, Some(a), &None), Ok(a));
    assert_eq!(resolve_listen_addr(None, Some(a), &file()), Ok(a));
}

#[test]
fn resolution_with_port_only_uses_loopback() {
    assert_eq!(resolve_listen_addr(Some(4444), None, &None), Ok(SocketAddress::loopback(4444)));
}

#[test]
fn resolution_conflicts() {
    let a = SocketAddress::new(10, 0, 0, 7, 9000);
    assert_eq!(resolve_listen_addr(Some(1), Some(a), &None), Err(ConfigError::ConflictingInput));
    assert_eq!(resolve_listen_addr(Some(1), None, &file()), Err(ConfigError::ConflictingInput));
    assert_eq!(resolve_listen_addr(Some(1), Some(a), &file()), Err(ConfigError::ConflictingInput));
}

#[test]
fn port_and_address_conflict_before_anything_else() {
    let mut raw = RawParams::cluster_defaults();
    raw.http_port = Some(8080);
    raw.http_listen_addr = Some(SocketAddress::new(127, 0, 0, 1, 8080));
    raw.subnet_type = Some("bogus".to_string());
    let dirs = DirFacts { port_file_parent_exists: false, state_dir_read_only: true };
    assert_eq!(validate(raw, dirs), Err(ConfigError::ConflictingInput));
}

#[test]
fn missing_port_file_directory_is_not_found() {
    let mut raw = RawParams::cluster_defaults();
    raw.http_port_file = file();
    let dirs = DirFacts { port_file_parent_exists: false, state_dir_read_only: true };
    assert_eq!(validate(raw, dirs), Err(ConfigError::NotFound));
}

#[test]
fn read_only_state_directory_is_refused() {
    let raw = RawParams::cluster_defaults();
    let dirs = DirFacts { port_file_parent_exists: false, state_dir_read_only: true };
    assert_eq!(validate(raw, dirs), Err(ConfigError::PermissionDenied));
}

#[test]
fn unknown_subnet_type_is_invalid() {
    let mut raw = RawParams::cluster_defaults();
    raw.subnet_type = Some("fiduciary".to_string());
    assert_eq!(validate(raw, fine_dirs()), Err(ConfigError::InvalidInput));
}

#[test]
fn unknown_log_level_is_invalid() {
    let mut raw = RawParams::cluster_defaults();
    raw.log_level = Some("loud".to_string());
    assert_eq!(validate(raw, fine_dirs()), Err(ConfigError::InvalidInput));
}

#[test]
fn malformed_key_is_invalid() {
    let mut raw = RawParams::cluster_defaults();
    raw.key_ids = vec!["ecdsa:Ed25519:k".to_string()];
    assert_eq!(validate(raw, fine_dirs()), Err(ConfigError::InvalidInput));
}

#[test]
fn validate_cluster_defaults() {
    let raw = RawParams::cluster_defaults();
    let settings = raw.settings.clone();
    let c = validate(raw, fine_dirs()).unwrap();
    assert_eq!(c.http_listen_addr, SocketAddress::loopback(8080));
    assert_eq!(c.http_port_file, None);
    assert_eq!(c.log_level, LogLevel::Info);
    assert_eq!(c.subnet_kind, SubnetKind::Application);
    assert!(c.key_ids.is_empty());
    assert_eq!(c.settings, settings);
}

#[test]
fn validate_records_port_file_and_keys() {
    let mut raw = RawParams::cluster_defaults();
    raw.http_port_file = file();
    raw.log_level = Some("trace".to_string());
    raw.subnet_type = None;
    raw.key_ids = vec!["schnorr:Ed25519:k1".to_string()];
    raw.legacy_key_id = Some("Secp256k1:old".to_string());
    let c = validate(raw, fine_dirs()).unwrap();
    assert_eq!(c.http_listen_addr, SocketAddress::loopback(0));
    assert_eq!(c.http_port_file, file());
    assert_eq!(c.log_level, LogLevel::Trace);
    assert_eq!(c.subnet_kind, SubnetKind::System);
    assert_eq!(c.key_ids.len(), 2);
    assert_eq!(c.key_ids[0].name, "k1");
    assert_eq!(c.key_ids[1].name, "old_100");
}

#[test]
fn subnet_kinds() {
    assert_eq!(parse_subnet_kind(None), Ok(SubnetKind::System));
    assert_eq!(parse_subnet_kind(Some("application")), Ok(SubnetKind::Application));
    assert_eq!(parse_subnet_kind(Some("verified_application")), Ok(SubnetKind::VerifiedApplication));
    assert_eq!(parse_subnet_kind(Some("system")), Ok(SubnetKind::System));
    assert_eq!(parse_subnet_kind(Some("System")), Err(ConfigError::InvalidInput));
    assert_eq!(parse_subnet_kind(Some("")), Err(ConfigError::InvalidInput));
}

#[test]
fn log_levels() {
    assert_eq!(parse_log_level(None), Ok(LogLevel::Info));
    assert_eq!(parse_log_level(Some("critical")), Ok(LogLevel::Critical));
    assert_eq!(parse_log_level(Some("warning")), Ok(LogLevel::Warning));
    assert_eq!(parse_log_level(Some("debug")), Ok(LogLevel::Debug));
    assert_eq!(parse_log_level(Some("warn")), Err(ConfigError::InvalidInput));
}

#[test]
fn key_identifiers() {
    let k = parse_key_id("ecdsa:Secp256k1:test_key_1").unwrap();
    assert_eq!((k.scheme, k.algorithm, k.name.as_str()), (KeyScheme::Ecdsa, KeyAlgorithm::Secp256k1, "test_key_1"));
    let k = parse_key_id("schnorr:Bip340Secp256k1:a:b").unwrap();
    assert_eq!((k.scheme, k.algorithm, k.name.as_str()), (KeyScheme::Schnorr, KeyAlgorithm::Bip340Secp256k1, "a:b"));
    let k = parse_key_id("vetkd:Bls12_381_G2:").unwrap();
    assert_eq!((k.scheme, k.algorithm, k.name.as_str()), (KeyScheme::VetKd, KeyAlgorithm::Bls12381G2, ""));
    assert_eq!(parse_key_id("ecdsa"), Err(ConfigError::InvalidInput));
    assert_eq!(parse_key_id("ecdsa:Secp256k1"), Err(ConfigError::InvalidInput));
    assert_eq!(parse_key_id("rsa:Secp256k1:k"), Err(ConfigError::InvalidInput));
    assert_eq!(parse_key_id("vetkd:Ed25519:k"), Err(ConfigError::InvalidInput));
}

#[test]
fn legacy_key_carries_node_index() {
    let k = parse_legacy_key_id("Secp256k1:dfx_test_key", 7).unwrap();
    assert_eq!((k.scheme, k.algorithm, k.name.as_str()), (KeyScheme::Ecdsa, KeyAlgorithm::Secp256k1, "dfx_test_key_7"));
    assert_eq!(parse_legacy_key_id("Ed25519:k", 7), Err(ConfigError::InvalidInput));
    assert_eq!(parse_legacy_key_id("nocolon", 7), Err(ConfigError::InvalidInput));
}

#[test]
fn key_lists() {
    let tokens = vec!["ecdsa:Secp256k1:a".to_string(), "schnorr:Ed25519:b".to_string()];
    let v = parse_key_ids(&tokens, &None, 100).unwrap();
    assert_eq!(v.iter().map(|k| k.name.as_str()).collect::<Vec<_>>(), vec!["a", "b"]);
    let v = parse_key_ids(&tokens, &Some("Secp256k1:c".to_string()), 101).unwrap();
    assert_eq!(v[2].name, "c_101");
    let bad = vec!["ecdsa:Secp256k1:a".to_string(), "bad".to_string()];
    assert_eq!(parse_key_ids(&bad, &None, 100), Err(ConfigError::InvalidInput));
    assert_eq!(parse_key_ids(&vec![], &Some("x".to_string()), 100), Err(ConfigError::InvalidInput));
}
