use cluster_prep::address::SocketAddress;
use cluster_prep::deployment::{plan_deployment, ProvisionalWhitelist};
use cluster_prep::params::{ConfigError, DirFacts, RawParams};
use cluster_prep::topology::NodeBinding;

fn fine_dirs() -> DirFacts {
    DirFacts { port_file_parent_exists: true, state_dir_read_only: false }
}

fn local(port: u16) -> SocketAddress {
    SocketAddress::new(127, 0, 0, 1, port)
}

fn two_nodes(subnet: Option<u64>) -> Vec<NodeBinding> {
    vec![
        NodeBinding { public_api: local(8080), xnet_api: local(8081), subnet: Some(0) },
        NodeBinding { public_api: local(9080), xnet_api: local(9081), subnet },
    ]
}

#[test]
fn plan_of_one_subnet() {
    let b = two_nodes(Some(0));
    let p = plan_deployment(RawParams::cluster_defaults(), fine_dirs(), &b, "/s", "/c", "/s/state".to_string(), 0, ProvisionalWhitelist::All).unwrap();
    assert_eq!(p.documents.len(), 2);
    assert_eq!(p.documents.iter().map(|d| d.node_index).collect::<Vec<_>>(), vec![100, 101]);
    assert_ne!(p.documents[0].json, p.documents[1].json);
    let t = &p.request.topology;
    assert_eq!(t.subnets.len(), 1);
    assert_eq!(t.subnets[0].members, vec![(100, b[0]), (101, b[1])]);
    assert!(t.unassigned.is_empty());
    assert_eq!(p.request.target_dir, "/s/state");
    assert_eq!(p.request.root_subnet, Some(0));
    assert_eq!(p.request.whitelist, ProvisionalWhitelist::All);
}

#[test]
fn plan_passes_unassigned_nodes_to_initializer() {
    let b = two_nodes(None);
    let p = plan_deployment(RawParams::cluster_defaults(), fine_dirs(), &b, "/s", "/c", "/t".to_string(), 0, ProvisionalWhitelist::Nobody).unwrap();
    assert_eq!(p.documents.len(), 2);
    assert_eq!(p.request.topology.subnets[0].members, vec![(100, b[0])]);
    assert_eq!(p.request.topology.unassigned, vec![(101, b[1])]);
    assert_eq!(p.request.whitelist, ProvisionalWhitelist::Nobody);
}

#[test]
fn plan_refuses_port_with_address() {
    let mut raw = RawParams::cluster_defaults();
    raw.http_port = Some(8080);
    raw.http_listen_addr = Some(local(8080));
    let r = plan_deployment(raw, fine_dirs(), &two_nodes(Some(0)), "/s", "/c", "/t".to_string(), 0, ProvisionalWhitelist::All);
    assert_eq!(r, Err(ConfigError::ConflictingInput));
}

#[test]
fn plan_runs_are_byte_identical() {
    let b = two_nodes(Some(0));
    let p1 = plan_deployment(RawParams::cluster_defaults(), fine_dirs(), &b, "/s", "/c", "/t".to_string(), 0, ProvisionalWhitelist::All).unwrap();
    let p2 = plan_deployment(RawParams::cluster_defaults(), fine_dirs(), &b, "/s", "/c", "/t".to_string(), 0, ProvisionalWhitelist::All).unwrap();
    for (d1, d2) in p1.documents.iter().zip(p2.documents.iter()) {
        assert_eq!(d1.path, d2.path);
        assert_eq!(d1.json.as_bytes(), d2.json.as_bytes());
    }
}
