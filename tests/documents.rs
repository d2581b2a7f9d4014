use cluster_prep::address::SocketAddress;
use cluster_prep::deployment::node_documents;
use cluster_prep::node_config::{assemble_node_config, node_config_document};
use cluster_prep::params::{validate, DirFacts, RawParams, SubnetKind, ValidatedConfig};
use cluster_prep::settings::{AdapterSocket, ConsensusTiming, FlagStatus, PoolBackend};
use cluster_prep::topology::{partition, NodeBinding, SubnetTunables};

fn config_from(raw: RawParams) -> ValidatedConfig {
    validate(raw, DirFacts { port_file_parent_exists: true, state_dir_read_only: false }).unwrap()
}

fn cluster_config() -> ValidatedConfig {
    config_from(RawParams::cluster_defaults())
}

fn addr(port: u16) -> SocketAddress {
    SocketAddress::new(127, 0, 0, 1, port)
}

#[test]
fn time_slicing_is_always_off() {
    let mut raw = RawParams::cluster_defaults();
    raw.settings.runtime.deterministic_time_slicing = FlagStatus::Enabled;
    let cfg = config_from(raw);
    let c = assemble_node_config(&cfg, "/b", 100, addr(8080));
    assert_eq!(c.runtime.deterministic_time_slicing, FlagStatus::Disabled);
    let doc = node_config_document(&cfg, "/b", 100, addr(8080));
    assert!(doc.contains("\"deterministic_time_slicing\":\"disabled\""));
    assert!(!doc.contains("\"deterministic_time_slicing\":\"enabled\""));
}

#[test]
fn documents_are_reproducible() {
    let first = node_config_document(&cluster_config(), "/b", 100, addr(8080));
    let second = node_config_document(&cluster_config(), "/b", 100, addr(8080));
    assert_eq!(first.as_bytes(), second.as_bytes());
}

#[test]
fn document_quotes_paths_and_renders_fields() {
    let doc = node_config_document(&cluster_config(), "/base", 100, addr(8080));
    assert!(doc.starts_with("{\"registry_client\":{\"local_store\":\"/base/state-100/ic_registry_local_store\"}"));
    assert!(doc.contains("\"transport\":{\"node_ip\":\"0.0.0.0\",\"listening_port\":4100,\"send_queue_size\":1024}"));
    assert!(doc.contains("\"listen_addr\":\"127.0.0.1:8080\",\"port_file_path\":null"));
    assert!(doc.contains("\"default_provisional_cycles_balance\":18446744073709551616"));
    assert!(doc.contains("\"create_funds_whitelist\":\"*\""));
    assert!(doc.contains("\"consensus_pool_backend\":\"lmdb\""));
    assert!(doc.contains("\"https_outcalls_uds_path\":\"/base/state-100/node-100/https_outcalls\""));
    assert!(doc.contains("\"max_pprof_concurrent_requests\":5"));
    assert!(doc.ends_with("}}"));
}

#[test]
fn document_escapes_strings() {
    let mut raw = RawParams::cluster_defaults();
    raw.settings.https_outcalls = AdapterSocket::At("/odd\"dir\\x".to_string());
    raw.settings.pool_backend = Some(PoolBackend::RocksDb);
    raw.log_level = Some("debug".to_string());
    let doc = node_config_document(&config_from(raw), "/b", 1, addr(1));
    assert!(doc.contains("\"https_outcalls_uds_path\":\"/odd\\\"dir\\\\x\""));
    assert!(doc.contains("\"consensus_pool_backend\":\"rocksdb\""));
    assert!(doc.contains("\"logger\":{\"level\":\"debug\"}"));
}

#[test]
fn assembled_configuration() {
    let mut raw = RawParams::cluster_defaults();
    raw.http_port_file = Some("/tmp/port".to_string());
    raw.settings.https_outcalls = AdapterSocket::Absent;
    raw.settings.bitcoin_testnet_uds_path = Some("/btc".to_string());
    let c = assemble_node_config(&config_from(raw), "/b", 5, addr(9));
    assert_eq!(c.registry_local_store, "/b/state-5/ic_registry_local_store");
    assert_eq!(c.crypto_root, "/b/state-5/node-5/crypto");
    assert_eq!(c.artifact_pool_root, "/b/state-5/node-5/ic_consensus_pool");
    assert_eq!(c.state_manager_root, "/b/state-5/node-5/state");
    assert_eq!(c.transport_port, 4100);
    assert_eq!(c.send_queue_size, 1024);
    assert_eq!(c.pool_backend, PoolBackend::Lmdb);
    assert_eq!(c.http.listen_addr, addr(9));
    assert_eq!(c.http.port_file, Some("/tmp/port".to_string()));
    assert_eq!(c.http.limits.max_concurrent_streams, 10000);
    assert_eq!(c.http.limits.max_dashboard, 100);
    assert_eq!(c.runtime.canister_sandboxing, FlagStatus::Disabled);
    assert_eq!(c.runtime.query_stats_epoch_length, 60);
    assert_eq!(c.https_outcalls_uds_path, None);
    assert_eq!(c.bitcoin_testnet_uds_path, Some("/btc".to_string()));
    assert_eq!(c.bitcoin_mainnet_uds_path, None);
}

#[test]
fn two_node_subnet_scenario() {
    let b = vec![
        NodeBinding { public_api: addr(8080), xnet_api: addr(8081), subnet: Some(0) },
        NodeBinding { public_api: addr(9080), xnet_api: addr(9081), subnet: Some(0) },
    ];
    let timing = ConsensusTiming { unit_delay_ms: None, initial_notary_delay_ms: None, dkg_interval_length: None };
    let t = partition(&b, 100, SubnetTunables::cluster(SubnetKind::Application, timing));
    assert_eq!(t.subnets.len(), 1);
    assert_eq!(t.subnets[0].index, 0);
    assert_eq!(t.subnets[0].members.iter().map(|m| m.0).collect::<Vec<_>>(), vec![100, 101]);
    assert!(t.unassigned.is_empty());

    let docs = node_documents(&cluster_config(), &b, "/s", "/c", 100);
    assert_eq!(docs.len(), 2);
    assert_eq!(docs[0].path, "/c/ic-100.json5");
    assert_eq!(docs[1].path, "/c/ic-101.json5");
    assert!(docs[0].json.contains("\"listen_addr\":\"127.0.0.1:8080\""));
    assert!(docs[1].json.contains("\"listen_addr\":\"127.0.0.1:9080\""));
    assert!(docs[0].json.contains("/s/state-100/node-100/crypto"));
    assert!(docs[1].json.contains("/s/state-101/node-101/crypto"));
    let moved = docs[0]
        .json
        .replace("state-100", "state-101")
        .replace("node-100", "node-101")
        .replace("127.0.0.1:8080", "127.0.0.1:9080");
    assert_eq!(moved, docs[1].json);
}
