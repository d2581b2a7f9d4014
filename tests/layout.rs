use cluster_prep::paths::{config_file_path, derive_paths, subnet_file_path};
use cluster_prep::text::{decimal, parse_u8_dec, split_once, str_eq};

#[test]
fn paths_of_a_node() {
    let p = derive_paths("/base", 100);
    assert_eq!(p.state_root, "/base/state-100");
    assert_eq!(p.node_root, "/base/state-100/node-100");
    assert_eq!(p.crypto_root, "/base/state-100/node-100/crypto");
    assert_eq!(p.artifact_pool_root, "/base/state-100/node-100/ic_consensus_pool");
    assert_eq!(p.state_manager_root, "/base/state-100/node-100/state");
    assert_eq!(p.registry_local_store, "/base/state-100/ic_registry_local_store");
}

#[test]
fn paths_are_stable_and_distinct_across_nodes() {
    assert_eq!(derive_paths("/b", 1), derive_paths("/b", 1));
    let a = derive_paths("/b", 1);
    let b = derive_paths("/b", 10);
    let all_a = [&a.state_root, &a.node_root, &a.crypto_root, &a.artifact_pool_root, &a.state_manager_root, &a.registry_local_store];
    let all_b = [&b.state_root, &b.node_root, &b.crypto_root, &b.artifact_pool_root, &b.state_manager_root, &b.registry_local_store];
    for x in all_a.iter() {
        for y in all_b.iter() {
            assert_ne!(x, y);
        }
    }
}

#[test]
fn document_and_subnet_files() {
    assert_eq!(config_file_path("/tmp", 101), "/tmp/ic-101.json5");
    assert_eq!(subnet_file_path("/tmp", 0), "/tmp/subnet-0.json");
}

#[test]
fn decimal_text() {
    assert_eq!(decimal(0), "0");
    assert_eq!(decimal(7), "7");
    assert_eq!(decimal(4100), "4100");
    assert_eq!(decimal(18_446_744_073_709_551_616), "18446744073709551616");
}

#[test]
fn octet_text() {
    assert_eq!(parse_u8_dec("0"), Some(0));
    assert_eq!(parse_u8_dec("255"), Some(255));
    assert_eq!(parse_u8_dec("256"), None);
    assert_eq!(parse_u8_dec("01"), None);
    assert_eq!(parse_u8_dec(""), None);
    assert_eq!(parse_u8_dec("1a"), None);
    assert_eq!(parse_u8_dec("1000"), None);
}

#[test]
fn string_helpers() {
    assert!(str_eq("abc", "abc"));
    assert!(!str_eq("abc", "abd"));
    assert!(!str_eq("abc", "ab"));
    assert_eq!(split_once("a:b:c", ':'), Some(("a", "b:c")));
    assert_eq!(split_once("abc", ':'), None);
}

