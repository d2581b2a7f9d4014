use cluster_prep::address::{parse_ipv4, SocketAddress};
use cluster_prep::deployment::{
    initializer_request, ProvisionalWhitelist, PUBLIC_API_PORT, XNET_PORT,
};
use cluster_prep::params::{validate, ConfigError, DirFacts, RawParams, SubnetKind};
use cluster_prep::settings::ConsensusTiming;
use cluster_prep::topology::{bindings_from_hosts, partition, used_subnets, NodeBinding, SubnetTunables};

fn tunables() -> SubnetTunables {
    SubnetTunables::cluster(SubnetKind::Application, ConsensusTiming { unit_delay_ms: None, initial_notary_delay_ms: None, dkg_interval_length: None })
}

fn binding(last: u8, subnet: Option<u64>) -> NodeBinding {
    NodeBinding {
        public_api: SocketAddress::new(10, 0, 0, last, 4100),
        xnet_api: SocketAddress::new(10, 0, 0, last, 4101),
        subnet,
    }
}

#[test]
fn every_node_lands_exactly_once() {
    let b = vec![binding(1, Some(3)), binding(2, None), binding(3, Some(0)), binding(4, Some(3)), binding(5, None)];
    let t = partition(&b, 100, tunables());
    assert_eq!(t.subnets.iter().map(|s| s.index).collect::<Vec<_>>(), vec![0, 3]);
    assert_eq!(t.subnets[0].members, vec![(102, b[2])]);
    assert_eq!(t.subnets[1].members, vec![(100, b[0]), (103, b[3])]);
    assert_eq!(t.unassigned, vec![(101, b[1]), (104, b[4])]);
    let mut all: Vec<u64> = t.subnets.iter().flat_map(|s| s.members.iter().map(|m| m.0)).collect();
    all.extend(t.unassigned.iter().map(|m| m.0));
    all.sort();
    assert_eq!(all, vec![100, 101, 102, 103, 104]);
    assert!(t.subnets.iter().all(|s| s.tunables == tunables()));
}

#[test]
fn untagged_binding_is_unassigned() {
    let b = vec![binding(1, Some(0)), binding(2, None)];
    let t = partition(&b, 100, tunables());
    assert_eq!(t.subnets.len(), 1);
    assert_eq!(t.subnets[0].members, vec![(100, b[0])]);
    assert_eq!(t.unassigned, vec![(101, b[1])]);
    let cfg = validate(RawParams::cluster_defaults(), DirFacts { port_file_parent_exists: true, state_dir_read_only: false }).unwrap();
    let req = initializer_request("/s".to_string(), t, 0, ProvisionalWhitelist::All, &cfg);
    assert_eq!(req.topology.unassigned, vec![(101, b[1])]);
    assert!(req.generate_subnet_records);
    assert_eq!(req.root_subnet, Some(0));
    assert!(req.ssh_readonly_access.is_empty());
    assert!(!req.use_specified_ids_allocation_range);
}

#[test]
fn empty_input_gives_empty_topology() {
    let t = partition(&vec![], 100, tunables());
    assert!(t.subnets.is_empty());
    assert!(t.unassigned.is_empty());
    assert!(used_subnets(&vec![]).is_empty());
}

#[test]
fn cluster_tunables() {
    let t = tunables();
    assert_eq!(t.max_ingress_messages_per_block, Some(5000));
    assert_eq!(t.max_block_payload_size, Some(5 * 4 * 1024 * 1024));
    assert_eq!(t.initial_height, Some(0));
}

#[test]
fn ipv4_addresses() {
    assert_eq!(parse_ipv4("10.5.0.10"), Some([10, 5, 0, 10]));
    assert_eq!(parse_ipv4("255.255.255.255"), Some([255, 255, 255, 255]));
    assert_eq!(parse_ipv4("10.5.0"), None);
    assert_eq!(parse_ipv4("10.5.0.10.1"), None);
    assert_eq!(parse_ipv4("10.5.0.256"), None);
    assert_eq!(parse_ipv4("10.05.0.1"), None);
    assert_eq!(parse_ipv4(""), None);
}

#[test]
fn host_list_gives_one_binding_per_host() {
    let v = bindings_from_hosts("10.5.0.10 10.5.0.11 10.5.0.12 10.5.0.13", PUBLIC_API_PORT, XNET_PORT, Some(0)).unwrap();
    assert_eq!(v.len(), 4);
    assert_eq!(v[0].public_api.to_text(), "10.5.0.10:4100");
    assert_eq!(v[0].xnet_api.to_text(), "10.5.0.10:4101");
    assert_eq!(v[3].public_api.to_text(), "10.5.0.13:4100");
    assert!(v.iter().all(|b| b.subnet == Some(0)));
}

#[test]
fn host_list_refuses_bad_pieces() {
    assert_eq!(bindings_from_hosts("10.5.0.10  10.5.0.11", 1, 2, None), Err(ConfigError::InvalidInput));
    assert_eq!(bindings_from_hosts("", 1, 2, None), Err(ConfigError::InvalidInput));
    assert_eq!(bindings_from_hosts("localhost", 1, 2, None), Err(ConfigError::InvalidInput));
    assert_eq!(bindings_from_hosts("10.5.0.10 ", 1, 2, None), Err(ConfigError::InvalidInput));
}
